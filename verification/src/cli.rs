//! The command line: `crabcraft [render] [online] [ADDR] [USERNAME] [SECONDS]`.

use vstd::prelude::*;
use vstd::string::*;

use crate::recipe_book;
use crate::text::{self, parse_decimal, str_eq};

verus! {

/// What the program is started for.
#[derive(Debug)]
pub struct Launch {
    /// Whether a window opens.
    pub render: bool,
    /// Whether an account logs in.
    pub online: bool,
    pub addr: String,
    pub username: String,
    /// How long a session without a window lasts.
    pub seconds: u64,
}

#[verifier::ext_equal]
pub struct LaunchModel {
    pub render: bool,
    pub online: bool,
    pub addr: Seq<char>,
    pub username: Seq<char>,
    pub seconds: int,
}

impl View for Launch {
    type V = LaunchModel;

    open spec fn view(&self) -> LaunchModel {
        LaunchModel {
            render: self.render,
            online: self.online,
            addr: self.addr@,
            username: self.username@,
            seconds: self.seconds as int,
        }
    }
}

pub open spec fn is_flag(arg: Seq<char>) -> bool {
    arg == "render"@ || arg == "online"@
}

/// The number of flags that the arguments begin with, from a place on.
pub open spec fn flag_count(args: Seq<Seq<char>>, from: int) -> int
    decreases args.len() - from,
{
    if 0 <= from < args.len() && is_flag(args[from]) {
        1 + flag_count(args, from + 1)
    } else {
        0
    }
}

/// An argument behind the flags, or what stands for it.
pub open spec fn arg_or(args: Seq<Seq<char>>, i: int, default: Seq<char>) -> Seq<char> {
    if i < args.len() {
        args[i]
    } else {
        default
    }
}

/// The session lasts this many seconds where nothing else is said.
pub const DEFAULT_SECONDS: u64 = 35;

pub open spec fn launch_of(args: Seq<Seq<char>>) -> LaunchModel {
    let n = flag_count(args, 0);
    LaunchModel {
        render: args.take(n).contains("render"@),
        online: args.take(n).contains("online"@),
        addr: arg_or(args, n, "127.0.0.1:25565"@),
        username: arg_or(args, n + 1, "Ferris"@),
        seconds: if n + 2 < args.len() {
            match text::parse_decimal_spec(args[n + 2], u64::MAX as nat) {
                Some(seconds) => seconds as int,
                None => DEFAULT_SECONDS as int,
            }
        } else {
            DEFAULT_SECONDS as int
        },
    }
}

proof fn lemma_flag_count(args: Seq<Seq<char>>, from: int)
    requires
        0 <= from <= args.len(),
    ensures
        0 <= flag_count(args, from) <= args.len() - from,
    decreases args.len() - from,
{
    if from < args.len() {
        lemma_flag_count(args, from + 1);
    }
}

fn copy_or(args: &Vec<String>, n: usize, i: usize, default: &str) -> (r: String)
    requires
        n <= args@.len(),
    ensures
        r@ == arg_or(recipe_book::texts(args@), n + i, default@),
{
    if i < args.len() - n {
        args[n + i].clone()
    } else {
        default.to_owned()
    }
}

/// Reads the arguments behind the name of the program. The flags come first,
/// in any order.
pub fn parse_args(args: &Vec<String>) -> (r: Launch)
    ensures
        r@ == launch_of(recipe_book::texts(args@)),
{
    let ghost all = recipe_book::texts(args@);
    let mut render: bool = false;
    let mut online: bool = false;
    let mut n: usize = 0;
    let mut more: bool = true;
    proof {
        lemma_flag_count(all, 0);
    }
    while n < args.len() && more
        invariant
            n <= args@.len(),
            all == recipe_book::texts(args@),
            flag_count(all, 0) == n + flag_count(all, n as int),
            !more ==> flag_count(all, n as int) == 0,
            render == all.take(n as int).contains("render"@),
            online == all.take(n as int).contains("online"@),
        decreases args@.len() - n, if more { 1int } else { 0int },
    {
        let is_render: bool = str_eq(args[n].as_str(), "render");
        let is_online: bool = str_eq(args[n].as_str(), "online");
        proof {
            reveal_strlit("render");
            reveal_strlit("online");
            assert("render"@[0] != "online"@[0]);
            assert(all[n as int] == args@[n as int]@);
            let shorter = all.take(n as int);
            let longer = all.take(n + 1);
            assert(longer =~= shorter.push(all[n as int]));
            assert forall|flag: Seq<char>| longer.contains(flag) <==> shorter.contains(flag)
                || flag == all[n as int] by {
                assert(longer[n as int] == all[n as int]);
                if shorter.contains(flag) {
                    let k = choose|k: int| 0 <= k < shorter.len() && shorter[k] == flag;
                    assert(longer[k] == flag);
                }
            }
        }
        if is_render {
            render = true;
            n = n + 1;
        } else if is_online {
            online = true;
            n = n + 1;
        } else {
            more = false;
        }
    }
    proof {
        assert(flag_count(all, 0) == n);
    }
    let addr = copy_or(args, n, 0, "127.0.0.1:25565");
    let username = copy_or(args, n, 1, "Ferris");
    let seconds: u64 = if args.len() - n > 2 {
        match parse_decimal(args[n + 2].as_str(), u64::MAX) {
            Some(seconds) => seconds,
            None => DEFAULT_SECONDS,
        }
    } else {
        DEFAULT_SECONDS
    };
    Launch { render, online, addr, username, seconds }
}

/// The flags can be given in any order.
pub proof fn flags_have_no_order(rest: Seq<Seq<char>>)
    requires
        rest.len() == 0 || !is_flag(rest[0]),
    ensures
        launch_of(seq!["render"@, "online"@] + rest) == launch_of(
            seq!["online"@, "render"@] + rest,
        ),
{
    reveal_strlit("render");
    reveal_strlit("online");
    let a = seq!["render"@, "online"@] + rest;
    let b = seq!["online"@, "render"@] + rest;
    assert(flag_count(a, 2) == 0 && flag_count(b, 2) == 0);
    assert(flag_count(a, 1) == 1 && flag_count(b, 1) == 1);
    assert(flag_count(a, 0) == 2 && flag_count(b, 0) == 2);
    assert(a.take(2)[0] == "render"@ && a.take(2)[1] == "online"@);
    assert(b.take(2)[0] == "online"@ && b.take(2)[1] == "render"@);
    assert forall|i: int| 2 <= i < a.len() implies a[i] == b[i] by {}
}

/// The file that a directory of entity models holds.
pub fn model_file() -> (r: &'static str)
    ensures
        r@ == "cow.geo.json"@,
{
    "cow.geo.json"
}

/// Where the models of entities can lie below a directory, in the order in
/// which they are looked for.
pub fn model_places() -> (r: [&'static str; 3])
    ensures
        r@[0]@ == "resource_pack/models/entity"@,
        r@[1]@ == "models/entity"@,
        r@[2]@ == "entity"@,
{
    ["resource_pack/models/entity", "models/entity", "entity"]
}

/// The directory of entity models among a directory and three below it: the
/// first that holds models. `root` and `below` say which ones do; without any
/// the directory itself is taken.
pub fn models_directory(root: bool, below: &Vec<bool>) -> (r: Option<usize>)
    ensures
        match r {
            Some(i) => !root && i < below@.len() && below@[i as int] && forall|k: int|
                0 <= k < i ==> !(#[trigger] below@[k]),
            None => root || forall|k: int| 0 <= k < below@.len() ==> !(#[trigger] below@[k]),
        },
{
    if root {
        return None;
    }
    let mut i: usize = 0;
    while i < below.len()
        invariant
            !root,
            i <= below@.len(),
            forall|k: int| 0 <= k < i ==> !(#[trigger] below@[k]),
        decreases below@.len() - i,
    {
        if below[i] {
            return Some(i);
        }
        i = i + 1;
    }
    None
}

proof fn lemma_flags_shift(flag: Seq<char>, args: Seq<Seq<char>>, from: int)
    requires
        0 <= from <= args.len(),
    ensures
        flag_count(seq![flag] + args, from + 1) == flag_count(args, from),
    decreases args.len() - from,
{
    if from < args.len() {
        assert((seq![flag] + args)[from + 1] == args[from]);
        lemma_flags_shift(flag, args, from + 1);
    }
}

/// A flag in front of the arguments switches one thing on and changes nothing else.
pub proof fn flags_switch_things_on(flag: Seq<char>, args: Seq<Seq<char>>)
    requires
        flag == "render"@ || flag == "online"@,
    ensures
        ({
            let before = launch_of(args);
            let after = launch_of(seq![flag] + args);
            &&& after.render <==> before.render || flag == "render"@
            &&& after.online <==> before.online || flag == "online"@
            &&& after.addr == before.addr
            &&& after.username == before.username
            &&& after.seconds == before.seconds
        }),
{
    let longer = seq![flag] + args;
    lemma_flag_count(args, 0);
    lemma_flags_shift(flag, args, 0);
    assert(longer[0] == flag);
    let n = flag_count(args, 0);
    assert(flag_count(longer, 0) == n + 1);
    assert(longer.take(n + 1) =~= seq![flag] + args.take(n));
    assert forall|name: Seq<char>| longer.take(n + 1).contains(name) <==> name == flag
        || args.take(n).contains(name) by {
        let flags = longer.take(n + 1);
        assert(flags[0] == flag);
        if args.take(n).contains(name) {
            let k = choose|k: int| 0 <= k < n && args.take(n)[k] == name;
            assert(flags[k + 1] == name);
        }
        if flags.contains(name) && name != flag {
            let k = choose|k: int| 0 <= k < flags.len() && flags[k] == name;
            assert(args.take(n)[k - 1] == name);
        }
    }
    if n < args.len() {
        assert(longer[n + 1] == args[n]);
    }
    if n + 1 < args.len() {
        assert(longer[n + 2] == args[n + 1]);
    }
    if n + 2 < args.len() {
        assert(longer[n + 3] == args[n + 2]);
    }
    let before = launch_of(args);
    let after = launch_of(longer);
    assert(after.render == longer.take(n + 1).contains("render"@));
    assert(after.online == longer.take(n + 1).contains("online"@));
    assert(after.addr == before.addr);
    assert(after.username == before.username);
    assert(after.seconds == before.seconds);
}

/// Behind the flags come the address, the name and the seconds; what is missing is the
/// local server, Ferris and 35 seconds, and so are seconds that are no number.
pub proof fn arguments_come_in_order(args: Seq<Seq<char>>)
    requires
        args.len() > 0 ==> args[0] != "render"@ && args[0] != "online"@,
    ensures
        ({
            let launch = launch_of(args);
            &&& !launch.render && !launch.online
            &&& launch.addr == if args.len() > 0 {
                args[0]
            } else {
                "127.0.0.1:25565"@
            }
            &&& launch.username == if args.len() > 1 {
                args[1]
            } else {
                "Ferris"@
            }
            &&& launch.seconds == if args.len() > 2 && text::parse_decimal_spec(
                args[2],
                u64::MAX as nat,
            ) is Some {
                text::parse_decimal_spec(args[2], u64::MAX as nat)->0 as int
            } else {
                35
            }
        }),
{
    assert(flag_count(args, 0) == 0);
    assert(args.take(0).len() == 0);
}

/// A launch stands for its parts.
pub proof fn launches_stand_for_their_parts(launch: Launch)
    ensures
        launch@.render == launch.render && launch@.online == launch.online,
        launch@.addr == launch.addr@,
        launch@.username == launch.username@,
        launch@.seconds == launch.seconds,
{
}

/// Models are taken from the directory itself where it has them; a place below it that they
/// are taken from is the first that has them.
pub proof fn models_are_in_the_first_place(
    root: bool,
    below: &Vec<bool>,
    place: Option<usize>,
    i: int,
)
    requires
        call_ensures(models_directory, (root, below), place),
        0 <= i < below@.len(),
        below@[i],
        forall|k: int| 0 <= k < i ==> !(#[trigger] below@[k]),
    ensures
        root ==> place is None,
        place matches Some(at) ==> !root && at == i,
{
    if let Some(at) = place {
        assert(below@[i]);
        assert(below@[at as int]);
    }
}

} // verus!
