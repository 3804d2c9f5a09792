//! Resource packs that the server asks for: what is checked before one is
//! used, how packs are laid over each other, and how the player's answer is
//! reported.

use vstd::hash_set::StringHashSet;
use vstd::prelude::*;
use vstd::string::*;
use vstd::utf8::*;

use crate::archive::{
    self, copy_entry, entry_bytes, entry_count, entry_name, entry_span, finish_archive,
    new_archive, open_archive, Copied, MAX_ENTRY_NAME,
};
use crate::chars::{self, trim};
use crate::hash::{self, sha1_hex};
use crate::json::{self, pack_format_present, parse_json, Json};
use crate::order::{self, ascii_lowercase};
use crate::players;
use crate::text::{self, has_prefix, has_suffix, str_eq};
use crate::wire::string_from_utf8;

verus! {

/// Why a resource pack is not used.
#[derive(Clone, Copy, Debug, PartialEq, Eq, Structural)]
pub enum PackError {
    /// The address cannot be read.
    InvalidUrl,
    /// The address names neither HTTP nor HTTPS.
    UnsupportedScheme,
    /// The pack is larger than is allowed.
    TooLarge,
    /// The pack is not the one that the server announced.
    HashMismatch,
    /// The pack is no archive.
    InvalidArchive,
    /// The pack has no metadata.
    NoMetadata,
    /// The metadata is no text.
    UnreadableMetadata,
    /// The metadata is no JSON document.
    InvalidMetadata,
    /// The metadata names no format.
    NoPackFormat,
    /// The pack holds no assets.
    NoAssets,
    /// What the pack is laid over is no archive.
    InvalidBase,
    /// An entry could not be copied.
    CopyFailed,
    /// The pack has to be laid over assets that are not there.
    NeedsBase,
    /// No pack is left.
    EmptyStack,
}

/// The most bytes of a pack: 100 MiB.
pub const MAX_PACK_BYTES: u64 = 104857600;

/// The scheme of an address, or nothing where the address cannot be read.
pub uninterp spec fn scheme_of(url: Seq<char>) -> Option<Seq<char>>;

/// `reqwest::Url::parse` and `reqwest::Url::scheme`: the scheme of an address.
/// How an address is read is left to the outside crate, and named.
#[verifier::external_body]
fn url_scheme(url: &str) -> (r: Option<String>)
    ensures
        match scheme_of(url@) {
            Some(scheme) => r matches Some(got) && got@ == scheme,
            None => r is None,
        },
{
    reqwest::Url::parse(url).ok().map(|parsed| parsed.scheme().to_owned())
}

pub open spec fn scheme_verdict(scheme: Option<Seq<char>>) -> Result<(), PackError> {
    match scheme {
        Some(scheme) => if scheme == "http"@ || scheme == "https"@ {
            Ok(())
        } else {
            Err(PackError::UnsupportedScheme)
        },
        None => Err(PackError::InvalidUrl),
    }
}

/// Whether a pack may be fetched by some scheme.
pub fn check_scheme(scheme: &Option<String>) -> (r: Result<(), PackError>)
    ensures
        r == scheme_verdict(players::opt_view(*scheme)),
{
    match scheme {
        Some(scheme) => {
            if str_eq(scheme.as_str(), "http") || str_eq(scheme.as_str(), "https") {
                Ok(())
            } else {
                Err(PackError::UnsupportedScheme)
            }
        },
        None => Err(PackError::InvalidUrl),
    }
}

/// Whether a pack may be fetched from some address.
pub fn check_url(url: &str) -> (r: Result<(), PackError>)
    ensures
        r == scheme_verdict(scheme_of(url@)),
{
    let scheme = url_scheme(url);
    check_scheme(&scheme)
}

/// Whether a digest is the one that the server announced; without an announced
/// one every digest is.
pub open spec fn hash_agrees(announced: Seq<char>, digest: Seq<char>) -> bool {
    let expected = order::lowered(chars::trimmed(announced));
    expected.len() == 0 || expected == digest
}

pub fn hash_matches(announced: &str, digest: &str) -> (r: bool)
    ensures
        r == hash_agrees(announced@, digest@),
{
    let expected = ascii_lowercase(trim(announced).as_str());
    expected.as_str().is_empty() || str_eq(expected.as_str(), digest)
}

/// What is wrong with the metadata of a pack, given the document in it.
pub open spec fn metadata_verdict(document: Option<json::JsonModel>) -> Result<(), PackError> {
    match document {
        Some(value) => if json::has_pack_format(value) {
            Ok(())
        } else {
            Err(PackError::NoPackFormat)
        },
        None => Err(PackError::InvalidMetadata),
    }
}

pub fn check_metadata(document: &Option<Json>) -> (r: Result<(), PackError>)
    ensures
        r == metadata_verdict(
            match *document {
                Some(value) => Some(value@),
                None => None,
            },
        ),
{
    match document {
        Some(value) => {
            if pack_format_present(value) {
                Ok(())
            } else {
                Err(PackError::NoPackFormat)
            }
        },
        None => Err(PackError::InvalidMetadata),
    }
}

/// What is wrong with a pack.
pub open spec fn pack_verdict(bytes: Seq<u8>) -> Result<(), PackError> {
    if archive::archive_size(bytes) is None {
        Err(PackError::InvalidArchive)
    } else {
        match archive::entry_bytes_in(bytes, "pack.mcmeta"@) {
            Some(Some(text)) => if valid_utf8(text) {
                metadata_verdict(json::json_of(decode_utf8(text)))
            } else {
                Err(PackError::UnreadableMetadata)
            },
            Some(None) => Err(PackError::UnreadableMetadata),
            None => Err(PackError::NoMetadata),
        }
    }
}

/// Checks that some bytes are a resource pack: an archive whose metadata names
/// a format.
pub fn validate_resource_pack(bytes: &Vec<u8>) -> (r: Result<(), PackError>)
    ensures
        r == pack_verdict(bytes@),
{
    let mut pack = match open_archive(bytes.clone()) {
        Some(pack) => pack,
        None => return Err(PackError::InvalidArchive),
    };
    match entry_bytes(&mut pack, "pack.mcmeta") {
        Some(Some(bytes)) => match string_from_utf8(bytes) {
            Some(text) => {
                let document = parse_json(text.as_str());
                check_metadata(&document)
            },
            None => Err(PackError::UnreadableMetadata),
        },
        Some(None) => Err(PackError::UnreadableMetadata),
        None => Err(PackError::NoMetadata),
    }
}

/// What becomes of a pack that was fetched: its digest, by which it is kept,
/// or why it is not used.
pub open spec fn download_verdict(bytes: Seq<u8>, announced: Seq<char>) -> Result<
    Seq<char>,
    PackError,
> {
    let digest = hash::hex(hash::sha1_of(bytes));
    if bytes.len() > MAX_PACK_BYTES {
        Err(PackError::TooLarge)
    } else if !hash_agrees(announced, digest) {
        Err(PackError::HashMismatch)
    } else {
        match pack_verdict(bytes) {
            Ok(_) => Ok(digest),
            Err(error) => Err(error),
        }
    }
}

/// Whether a pack is too large, by the length that was announced for it.
pub fn is_too_large(length: u64) -> (r: bool)
    ensures
        r == (length > MAX_PACK_BYTES),
{
    length > MAX_PACK_BYTES
}

/// Checks a pack that was fetched, and gives the digest by which it is kept.
pub fn check_download(bytes: &Vec<u8>, announced: &str) -> (r: Result<String, PackError>)
    ensures
        match download_verdict(bytes@, announced@) {
            Ok(digest) => r matches Ok(got) && got@ == digest,
            Err(error) => r == Err::<String, PackError>(error),
        },
{
    if bytes.len() as u64 > MAX_PACK_BYTES {
        return Err(PackError::TooLarge);
    }
    let digest = sha1_hex(bytes);
    if !hash_matches(announced, digest.as_str()) {
        return Err(PackError::HashMismatch);
    }
    match validate_resource_pack(bytes) {
        Ok(_) => Ok(digest),
        Err(error) => Err(error),
    }
}

/// Whether an entry of a pack is an asset.
pub open spec fn is_asset(name: Seq<char>) -> bool {
    text::starts_with(name, "assets/"@) && !text::ends_with(name, "/"@)
}

/// Whether an entry of the base is an asset of the game.
pub open spec fn is_base_asset(name: Seq<char>) -> bool {
    text::starts_with(name, "assets/minecraft/"@) && !text::ends_with(name, "/"@)
}

fn asset(name: &str) -> (r: bool)
    ensures
        r == is_asset(name@),
{
    has_prefix(name, "assets/") && !has_suffix(name, "/")
}

fn base_asset(name: &str) -> (r: bool)
    ensures
        r == is_base_asset(name@),
{
    has_prefix(name, "assets/minecraft/") && !has_suffix(name, "/")
}

/// Whether the entry at a place is an asset of some name.
pub open spec fn asset_at(pack: Seq<u8>, i: int, name: Seq<char>) -> bool {
    archive::entry_name_in(pack, i) == Some(name) && is_asset(name)
}

/// Whether one of the first `n` entries of a pack is an asset of some name.
pub open spec fn overrides(pack: Seq<u8>, n: int, name: Seq<char>) -> bool {
    exists|i: int| 0 <= i < n && #[trigger] asset_at(pack, i, name)
}

/// Whether the entry at a place is an asset.
pub open spec fn any_asset_at(pack: Seq<u8>, i: int) -> bool {
    match archive::entry_name_in(pack, i) {
        Some(name) => is_asset(name),
        None => false,
    }
}

/// Whether the entry at a place is an asset of the game that the pack does not
/// override.
pub open spec fn kept_at(base: Seq<u8>, i: int, pack: Seq<u8>, pack_size: int) -> bool {
    match archive::entry_name_in(base, i) {
        Some(name) => is_base_asset(name) && !overrides(pack, pack_size, name),
        None => false,
    }
}

/// Whether one of the first `n` entries of a pack is an asset.
pub open spec fn has_assets(pack: Seq<u8>, n: int) -> bool {
    exists|i: int| 0 <= i < n && #[trigger] any_asset_at(pack, i)
}

/// Whether an archive can hold an entry of that name.
pub open spec fn fits(name: Seq<char>) -> bool {
    encode_utf8(name).len() <= MAX_ENTRY_NAME
}

fn name_fits(name: &str) -> (r: bool)
    ensures
        r == fits(name@),
{
    name.as_bytes().len() <= MAX_ENTRY_NAME
}

/// The entries of the base from place `i` on that nothing overrides, copied
/// behind those in `acc`.
pub open spec fn copy_base(
    base: Seq<u8>,
    pack: Seq<u8>,
    pack_size: int,
    i: int,
    n: int,
    acc: Seq<Copied>,
) -> Option<Seq<Copied>>
    decreases n - i,
{
    if i >= n {
        Some(acc)
    } else {
        match archive::entry_name_in(base, i) {
            Some(name) => if is_base_asset(name) && !overrides(pack, pack_size, name) {
                if fits(name) && archive::can_copy(acc, base, i) {
                    copy_base(base, pack, pack_size, i + 1, n, acc.push((base, i)))
                } else {
                    None
                }
            } else {
                copy_base(base, pack, pack_size, i + 1, n, acc)
            },
            None => None,
        }
    }
}

/// The assets of a pack from place `i` on, copied behind those in `acc`.
pub open spec fn copy_pack(pack: Seq<u8>, i: int, n: int, acc: Seq<Copied>) -> Option<Seq<Copied>>
    decreases n - i,
{
    if i >= n {
        Some(acc)
    } else {
        match archive::entry_name_in(pack, i) {
            Some(name) => if is_asset(name) {
                if fits(name) && archive::can_copy(acc, pack, i) {
                    copy_pack(pack, i + 1, n, acc.push((pack, i)))
                } else {
                    None
                }
            } else {
                copy_pack(pack, i + 1, n, acc)
            },
            None => None,
        }
    }
}

/// What is copied for a pack over a base, or nothing where an entry of them cannot
/// be copied.
pub open spec fn copied_layers(base: Seq<u8>, pack: Seq<u8>) -> Option<Seq<Copied>> {
    let base_size = archive::archive_size(base)->0 as int;
    let pack_size = archive::archive_size(pack)->0 as int;
    match copy_base(base, pack, pack_size, 0, base_size, Seq::empty()) {
        Some(under) => copy_pack(pack, 0, pack_size, under),
        None => None,
    }
}

/// A pack laid over a base: an archive of the assets of the game that the pack
/// does not override, and of the assets of the pack.
pub open spec fn layered(base: Seq<u8>, pack: Seq<u8>) -> Result<Seq<u8>, PackError> {
    match archive::archive_size(pack) {
        Some(pack_size) => if !has_assets(pack, pack_size as int) {
            Err(PackError::NoAssets)
        } else if archive::archive_size(base) is None {
            Err(PackError::InvalidBase)
        } else {
            match copied_layers(base, pack) {
                Some(copied) => match archive::finished_archive(copied) {
                    Some(bytes) => Ok(bytes),
                    None => Err(PackError::CopyFailed),
                },
                None => Err(PackError::CopyFailed),
            }
        },
        None => Err(PackError::InvalidArchive),
    }
}

/// Whether the archive in some bytes has an entry of that name.
pub open spec fn has_entry(bytes: Seq<u8>, name: Seq<char>) -> bool {
    exists|i: int|
        0 <= i < archive::archive_size(bytes)->0 && #[trigger] archive::entry_name_in(bytes, i)
            == Some(name)
}

/// Whether an archive has, by name, the assets of a pack and those assets of the
/// game in the base that the pack does not override, and no others.
pub open spec fn has_layers(base: Seq<u8>, pack: Seq<u8>, layered: Seq<u8>) -> bool {
    &&& archive::archive_size(layered) is Some
    &&& forall|name: Seq<char>|
        #[trigger] has_entry(layered, name) <==> {
            ||| is_asset(name) && has_entry(pack, name)
            ||| is_base_asset(name) && has_entry(base, name)
        }
}

/// Whether all entries of the archive in some bytes are whole.
pub open spec fn all_whole(bytes: Seq<u8>) -> bool {
    archive::archive_size(bytes) matches Some(size) && forall|i: int|
        0 <= i < size ==> #[trigger] archive::is_whole(bytes, i)
}

/// Whether all entries of an archive are whole, so that copies of it read as it
/// does.
pub fn is_whole_archive(bytes: &Vec<u8>) -> (r: bool)
    ensures
        r == all_whole(bytes@),
{
    let mut archive = match open_archive(bytes.clone()) {
        Some(archive) => archive,
        None => return false,
    };
    let size: usize = entry_count(&archive);
    let len: u64 = bytes.len() as u64;
    let mut i: usize = 0;
    while i < size
        invariant
            i <= size,
            len == bytes@.len(),
            archive::archive_bytes(archive) == bytes@,
            archive::archive_size(bytes@) == Some(size as nat),
            forall|k: int| 0 <= k < i ==> #[trigger] archive::is_whole(bytes@, k),
        decreases size - i,
    {
        let whole: bool = match entry_span(&mut archive, i) {
            Some((start, packed, _)) => start <= len && packed <= len - start,
            None => false,
        };
        proof {
            assert(whole == archive::is_whole(bytes@, i as int));
        }
        if !whole {
            return false;
        }
        i = i + 1;
    }
    true
}

/// Whether an archive holds for each of its names what the pack holds for it, or
/// else the base: the pack where it has an asset of that name. Of a pack or a base
/// that is not whole nothing is said.
pub open spec fn has_contents(base: Seq<u8>, pack: Seq<u8>, layered: Seq<u8>) -> bool {
    forall|name: Seq<char>| #[trigger]
        has_entry(layered, name) ==> {
            &&& all_whole(pack) && has_entry(pack, name) ==> archive::entry_bytes_in(layered, name)
                == archive::entry_bytes_in(pack, name)
            &&& all_whole(base) && !has_entry(pack, name) ==> archive::entry_bytes_in(layered, name)
                == archive::entry_bytes_in(base, name)
        }
}

pub open spec fn layered_as(want: Result<Seq<u8>, PackError>, got: Result<Vec<u8>, PackError>) -> bool {
    match want {
        Ok(bytes) => got matches Ok(value) && value@ == bytes,
        Err(error) => got == Err::<Vec<u8>, PackError>(error),
    }
}

/// Lays a pack over a base. Loaders then find everything that the pack leaves
/// out as they do without a pack.
pub fn layer_resource_pack(base: Vec<u8>, pack: Vec<u8>) -> (r: Result<Vec<u8>, PackError>)
    ensures
        layered_as(layered(base@, pack@), r),
        r matches Ok(got) ==> archive::reads_back(got@, copied_layers(base@, pack@)->0)
            ==> has_layers(base@, pack@, got@) && has_contents(base@, pack@, got@),
{
    let ghost base_bytes = base@;
    let ghost pack_bytes = pack@;
    let mut overlay = match open_archive(pack) {
        Some(overlay) => overlay,
        None => return Err(PackError::InvalidArchive),
    };
    let pack_size: usize = entry_count(&overlay);
    let mut names = StringHashSet::new();
    let mut found: bool = false;
    let mut i: usize = 0;
    while i < pack_size
        invariant
            i <= pack_size,
            archive::archive_bytes(overlay) == pack_bytes,
            found == has_assets(pack_bytes, i as int),
            forall|name: Seq<char>|
                #[trigger] names@.contains(name) <==> overrides(pack_bytes, i as int, name),
        decreases pack_size - i,
    {
        let ghost seen = names@;
        let ghost found_before = found;
        let opened = entry_name(&mut overlay, i);
        let ghost opened_view = players::opt_view(opened);
        match opened {
            Some(name) => {
                if asset(name.as_str()) {
                    let ghost label = name@;
                    names.insert(name);
                    found = true;
                    proof {
                        assert(asset_at(pack_bytes, i as int, label));
                    }
                }
            },
            None => {},
        }
        proof {
            assert forall|name: Seq<char>| #[trigger] names@.contains(name) <==> overrides(
                pack_bytes,
                i + 1,
                name,
            ) by {
                assert(seen.contains(name) <==> overrides(pack_bytes, i as int, name));
                if overrides(pack_bytes, i as int, name) {
                    let k = choose|k: int| 0 <= k < i && #[trigger] asset_at(pack_bytes, k, name);
                    assert(asset_at(pack_bytes, k, name));
                }
                if overrides(pack_bytes, i + 1, name) {
                    let k = choose|k: int|
                        0 <= k < i + 1 && #[trigger] asset_at(pack_bytes, k, name);
                    if k < i {
                        assert(overrides(pack_bytes, i as int, name));
                    }
                }
            }
            assert(found == has_assets(pack_bytes, i + 1)) by {
                if found_before {
                    let k = choose|k: int| 0 <= k < i && #[trigger] any_asset_at(pack_bytes, k);
                    assert(any_asset_at(pack_bytes, k));
                }
                if has_assets(pack_bytes, i + 1) {
                    let k = choose|k: int|
                        0 <= k < i + 1 && #[trigger] any_asset_at(pack_bytes, k);
                    if k < i {
                        assert(has_assets(pack_bytes, i as int));
                    }
                }
                assert(archive::entry_name_in(pack_bytes, i as int) == opened_view);
                if any_asset_at(pack_bytes, i as int) {
                    assert(has_assets(pack_bytes, i + 1));
                }
            }
        }
        i = i + 1;
    }
    if !found {
        return Err(PackError::NoAssets);
    }
    let mut under = match open_archive(base) {
        Some(under) => under,
        None => return Err(PackError::InvalidBase),
    };
    let base_size: usize = entry_count(&under);
    let mut out = new_archive();
    let ghost want = copy_base(
        base_bytes,
        pack_bytes,
        pack_size as int,
        0,
        base_size as int,
        Seq::empty(),
    );
    let mut j: usize = 0;
    while j < base_size
        invariant
            j <= base_size,
            has_assets(pack_bytes, pack_size as int),
            archive::archive_size(pack_bytes) == Some(pack_size as nat),
            archive::archive_size(base_bytes) == Some(base_size as nat),
            base_bytes == base@,
            pack_bytes == pack@,
            archive::archive_bytes(under) == base_bytes,
            forall|name: Seq<char>|
                #[trigger] names@.contains(name) <==> overrides(
                    pack_bytes,
                    pack_size as int,
                    name,
                ),
            want == copy_base(
                base_bytes,
                pack_bytes,
                pack_size as int,
                0,
                base_size as int,
                Seq::empty(),
            ),
            want == copy_base(
                base_bytes,
                pack_bytes,
                pack_size as int,
                j as int,
                base_size as int,
                archive::copied_into(out),
            ),
        decreases base_size - j,
    {
        match entry_name(&mut under, j) {
            Some(name) => {
                if base_asset(name.as_str()) && !names.contains(name.as_str()) {
                    if !name_fits(name.as_str()) || !copy_entry(&mut under, j, &mut out) {
                        return Err(PackError::CopyFailed);
                    }
                }
            },
            None => return Err(PackError::CopyFailed),
        }
        j = j + 1;
    }
    let ghost all = copy_pack(pack_bytes, 0, pack_size as int, archive::copied_into(out));
    let mut k: usize = 0;
    while k < pack_size
        invariant
            k <= pack_size,
            archive::archive_bytes(overlay) == pack_bytes,
            base_bytes == base@,
            pack_bytes == pack@,
            archive::archive_size(pack_bytes) == Some(pack_size as nat),
            archive::archive_size(base_bytes) == Some(base_size as nat),
            want == copy_base(
                base_bytes,
                pack_bytes,
                pack_size as int,
                0,
                base_size as int,
                Seq::empty(),
            ),
            want is Some,
            all == copy_pack(pack_bytes, 0, pack_size as int, want->0),
            layered(base@, pack@) == (match all {
                Some(copied) => match archive::finished_archive(copied) {
                    Some(bytes) => Ok(bytes),
                    None => Err(PackError::CopyFailed),
                },
                None => Err(PackError::CopyFailed),
            }),
            all == copy_pack(pack_bytes, k as int, pack_size as int, archive::copied_into(out)),
        decreases pack_size - k,
    {
        match entry_name(&mut overlay, k) {
            Some(name) => {
                if asset(name.as_str()) {
                    if !name_fits(name.as_str()) || !copy_entry(&mut overlay, k, &mut out) {
                        return Err(PackError::CopyFailed);
                    }
                }
            },
            None => return Err(PackError::CopyFailed),
        }
        k = k + 1;
    }
    let ghost copied = archive::copied_into(out);
    match finish_archive(out) {
        Some(bytes) => {
            proof {
                if archive::reads_back(bytes@, copied) {
                    lemma_has_layers(base_bytes, pack_bytes, bytes@, copied);
                }
            }
            Ok(bytes)
        },
        None => Err(PackError::CopyFailed),
    }
}

/// Packs laid over a base one by one, the last one on top.
pub open spec fn stacked(base: Seq<u8>, packs: Seq<Seq<u8>>) -> Result<Seq<u8>, PackError>
    decreases packs.len(),
{
    if packs.len() == 0 {
        Ok(base)
    } else {
        match stacked(base, packs.drop_last()) {
            Ok(below) => layered(below, packs.last()),
            Err(error) => Err(error),
        }
    }
}

pub open spec fn byte_views(packs: Seq<Vec<u8>>) -> Seq<Seq<u8>> {
    Seq::new(packs.len(), |i: int| packs[i]@)
}

proof fn lemma_stacked_error(base: Seq<u8>, packs: Seq<Seq<u8>>, n: int)
    requires
        0 <= n <= packs.len(),
        stacked(base, packs.take(n)) is Err,
    ensures
        stacked(base, packs) == stacked(base, packs.take(n)),
    decreases packs.len() - n,
{
    if n < packs.len() {
        assert(packs.take(n + 1).drop_last() =~= packs.take(n));
        lemma_stacked_error(base, packs, n + 1);
    } else {
        assert(packs.take(n) =~= packs);
    }
}

/// Lays packs over a base one by one, the last one on top.
pub fn stack_resource_packs(base: Vec<u8>, packs: &Vec<Vec<u8>>) -> (r: Result<Vec<u8>, PackError>)
    ensures
        layered_as(stacked(base@, byte_views(packs@)), r),
{
    let ghost start = base@;
    let ghost all = byte_views(packs@);
    let mut current = base;
    let mut i: usize = 0;
    while i < packs.len()
        invariant
            i <= packs@.len(),
            all == byte_views(packs@),
            start == base@,
            stacked(start, all.take(i as int)) == Ok::<Seq<u8>, PackError>(current@),
        decreases packs@.len() - i,
    {
        proof {
            assert(all.take(i + 1).drop_last() =~= all.take(i as int));
            assert(all.take(i + 1).last() == packs@[i as int]@);
        }
        match layer_resource_pack(current, packs[i].clone()) {
            Ok(next) => {
                current = next;
            },
            Err(error) => {
                proof {
                    lemma_stacked_error(start, all, i + 1);
                }
                return Err(error);
            },
        }
        i = i + 1;
    }
    proof {
        assert(all.take(i as int) =~= all);
    }
    Ok(current)
}

proof fn lemma_copy_base(
    base: Seq<u8>,
    pack: Seq<u8>,
    pack_size: int,
    i: int,
    n: int,
    acc: Seq<Copied>,
    entry: Copied,
)
    requires
        0 <= i,
        copy_base(base, pack, pack_size, i, n, acc) is Some,
    ensures
        copy_base(base, pack, pack_size, i, n, acc)->0.contains(entry) <==> acc.contains(entry) || (
        entry.0 == base && i <= entry.1 < n && kept_at(base, entry.1, pack, pack_size)),
    decreases n - i,
{
    if i < n {
        let name = archive::entry_name_in(base, i)->0;
        if is_base_asset(name) && !overrides(pack, pack_size, name) {
            lemma_copy_base(base, pack, pack_size, i + 1, n, acc.push((base, i)), entry);
            lemma_push(acc, (base, i), entry);
        } else {
            lemma_copy_base(base, pack, pack_size, i + 1, n, acc, entry);
        }
    }
}

proof fn lemma_push(acc: Seq<Copied>, added: Copied, entry: Copied)
    ensures
        acc.push(added).contains(entry) <==> acc.contains(entry) || entry == added,
{
    let longer = acc.push(added);
    assert(longer[acc.len() as int] == added);
    if acc.contains(entry) {
        let k = choose|k: int| 0 <= k < acc.len() && acc[k] == entry;
        assert(longer[k] == entry);
    }
    if longer.contains(entry) && entry != added {
        let k = choose|k: int| 0 <= k < longer.len() && longer[k] == entry;
        assert(acc[k] == entry);
    }
}

proof fn lemma_copy_pack(pack: Seq<u8>, i: int, n: int, acc: Seq<Copied>, entry: Copied)
    requires
        0 <= i,
        copy_pack(pack, i, n, acc) is Some,
    ensures
        copy_pack(pack, i, n, acc)->0.contains(entry) <==> acc.contains(entry) || (entry.0 == pack
            && i <= entry.1 < n && any_asset_at(pack, entry.1)),
    decreases n - i,
{
    if i < n {
        let name = archive::entry_name_in(pack, i)->0;
        if is_asset(name) {
            lemma_copy_pack(pack, i + 1, n, acc.push((pack, i)), entry);
            lemma_push(acc, (pack, i), entry);
        } else {
            lemma_copy_pack(pack, i + 1, n, acc, entry);
        }
    }
}

proof fn lemma_prefixes(name: Seq<char>)
    requires
        is_base_asset(name),
    ensures
        is_asset(name),
{
    reveal_strlit("assets/");
    reveal_strlit("assets/minecraft/");
    assert(name.take("assets/"@.len() as int) =~= name.take("assets/minecraft/"@.len() as int).take(
        "assets/"@.len() as int,
    ));
    assert("assets/minecraft/"@.take("assets/"@.len() as int) =~= "assets/"@);
}

/// An archive that holds what is copied for a pack over a base has the names and
/// the contents of both.
proof fn lemma_has_layers(base: Seq<u8>, pack: Seq<u8>, layered: Seq<u8>, copied: Seq<Copied>)
    requires
        archive::archive_size(base) is Some,
        archive::archive_size(pack) is Some,
        copied_layers(base, pack) == Some(copied),
        archive::holds_names(layered, copied),
        archive::holds_contents(layered, copied),
    ensures
        has_layers(base, pack, layered),
        has_contents(base, pack, layered),
{
    let base_size = archive::archive_size(base)->0 as int;
    let pack_size = archive::archive_size(pack)->0 as int;
    let under = copy_base(base, pack, pack_size, 0, base_size, Seq::empty())->0;
    assert forall|name: Seq<char>| #[trigger] has_entry(layered, name) implies {
        &&& all_whole(pack) && has_entry(pack, name) ==> archive::entry_bytes_in(layered, name)
            == archive::entry_bytes_in(pack, name)
        &&& all_whole(base) && !has_entry(pack, name) ==> archive::entry_bytes_in(layered, name)
            == archive::entry_bytes_in(base, name)
    } by {
        let i = choose|i: int|
            0 <= i < copied.len() && #[trigger] archive::entry_name_in(layered, i) == Some(name);
        let entry = copied[i];
        lemma_copy_base(base, pack, pack_size, 0, base_size, Seq::empty(), entry);
        lemma_copy_pack(pack, 0, pack_size, under, entry);
        assert(copied.contains(entry));
        assert(archive::entry_name_in(entry.0, entry.1) == Some(name));
        if any_asset_at(pack, entry.1) && entry.0 == pack && 0 <= entry.1 < pack_size {
            assert(has_entry(pack, name));
            assert(all_whole(pack) ==> archive::is_whole(pack, entry.1));
        } else {
            lemma_prefixes(name);
            assert(!overrides(pack, pack_size, name));
            if has_entry(pack, name) {
                let k = choose|k: int|
                    0 <= k < pack_size && #[trigger] archive::entry_name_in(pack, k) == Some(name);
                assert(asset_at(pack, k, name));
            }
            assert(all_whole(base) ==> archive::is_whole(base, entry.1));
        }
    }
    assert forall|name: Seq<char>|
        #[trigger] has_entry(layered, name) <==> {
            ||| is_asset(name) && has_entry(pack, name)
            ||| is_base_asset(name) && has_entry(base, name)
        } by {
        if has_entry(layered, name) {
            let i = choose|i: int|
                0 <= i < copied.len() && #[trigger] archive::entry_name_in(layered, i) == Some(
                    name,
                );
            let entry = copied[i];
            lemma_copy_base(base, pack, pack_size, 0, base_size, Seq::empty(), entry);
            lemma_copy_pack(pack, 0, pack_size, under, entry);
            assert(copied.contains(entry));
            assert(archive::entry_name_in(entry.0, entry.1) == Some(name));
        }
        if is_asset(name) && has_entry(pack, name) {
            let k = choose|k: int|
                0 <= k < pack_size && #[trigger] archive::entry_name_in(pack, k) == Some(name);
            lemma_copy_pack(pack, 0, pack_size, under, (pack, k));
            let i = choose|i: int| 0 <= i < copied.len() && copied[i] == (pack, k);
            assert(archive::entry_name_in(layered, i) == Some(name));
        } else if is_base_asset(name) && has_entry(base, name) {
            lemma_prefixes(name);
            let k = choose|k: int|
                0 <= k < base_size && #[trigger] archive::entry_name_in(base, k) == Some(name);
            if overrides(pack, pack_size, name) {
                let j = choose|j: int| 0 <= j < pack_size && #[trigger] asset_at(pack, j, name);
                assert(archive::entry_name_in(pack, j) == Some(name));
            }
            lemma_copy_base(base, pack, pack_size, 0, base_size, Seq::empty(), (base, k));
            lemma_copy_pack(pack, 0, pack_size, under, (base, k));
            let i = choose|i: int| 0 <= i < copied.len() && copied[i] == (base, k);
            assert(archive::entry_name_in(layered, i) == Some(name));
        }
    }
}

/// Where a pack could be laid over a base, the archive is made of exactly the
/// assets of the pack and those assets of the game that the pack does not
/// override.
pub proof fn layers_override_and_preserve(base: Seq<u8>, pack: Seq<u8>, entry: Copied)
    requires
        layered(base, pack) is Ok,
    ensures
        ({
            let base_size = archive::archive_size(base)->0 as int;
            let pack_size = archive::archive_size(pack)->0 as int;
            let copied = copied_layers(base, pack)->0;
            &&& archive::finished_archive(copied) == Some(layered(base, pack)->Ok_0)
            &&& copied.contains(entry) <==> {
                ||| entry.0 == pack && 0 <= entry.1 < pack_size && any_asset_at(pack, entry.1)
                ||| entry.0 == base && 0 <= entry.1 < base_size && kept_at(
                    base,
                    entry.1,
                    pack,
                    pack_size,
                )
            }
        }),
{
    let base_size = archive::archive_size(base)->0 as int;
    let pack_size = archive::archive_size(pack)->0 as int;
    lemma_copy_base(base, pack, pack_size, 0, base_size, Seq::empty(), entry);
    lemma_copy_pack(
        pack,
        0,
        pack_size,
        copy_base(base, pack, pack_size, 0, base_size, Seq::empty())->0,
        entry,
    );
}

/// An announced digest in capitals and with blanks around it is the same
/// digest, and without an announced one every pack agrees.
pub proof fn announced_hashes_are_read_loosely(announced: Seq<char>, digest: Seq<char>)
    ensures
        hash_agrees(announced, digest) == hash_agrees(chars::trimmed(announced), digest),
        chars::trimmed(announced).len() == 0 ==> hash_agrees(announced, digest),
{
    chars::trimming_settles(announced);
}

/// Packs are fetched by HTTP and HTTPS alone; an address that cannot be read is refused as
/// such.
pub proof fn packs_come_by_http(scheme: Seq<char>)
    ensures
        scheme_verdict(Some(scheme)) is Ok <==> scheme == "http"@ || scheme == "https"@,
        scheme_verdict(Some(scheme)) is Err ==> scheme_verdict(Some(scheme)) == Err::<
            (),
            PackError,
        >(PackError::UnsupportedScheme),
        scheme_verdict(None) == Err::<(), PackError>(PackError::InvalidUrl),
{
}

/// A digest agrees with itself, with its capitals as well, and with no other.
pub proof fn digests_agree_with_themselves(digest: Seq<char>, other: Seq<char>)
    requires
        digest.len() > 0,
        order::lowered(digest) == digest,
        !chars::is_blank(digest[0]),
        !chars::is_blank(digest.last()),
    ensures
        hash_agrees(digest, other) <==> other == digest,
        hash_agrees(Seq::empty(), other),
{
    chars::trimming_takes_the_blanks_around(digest, ' ');
}

/// Metadata is good exactly if it is a document that names a format.
pub proof fn metadata_names_a_format(document: json::JsonModel)
    ensures
        metadata_verdict(Some(document)) is Ok <==> json::has_pack_format(document),
        metadata_verdict(Some(document)) is Err ==> metadata_verdict(Some(document)) == Err::<
            (),
            PackError,
        >(PackError::NoPackFormat),
        metadata_verdict(None) == Err::<(), PackError>(PackError::InvalidMetadata),
{
}

/// A pack is good exactly if it is an archive with metadata that can be read and names a
/// format, and each fault has its error.
pub proof fn packs_have_metadata(bytes: Seq<u8>, content: Seq<u8>)
    ensures
        archive::archive_size(bytes) is None ==> pack_verdict(bytes) == Err::<(), PackError>(
            PackError::InvalidArchive,
        ),
        archive::archive_size(bytes) is Some ==> {
            let found = archive::entry_bytes_in(bytes, "pack.mcmeta"@);
            &&& found is None ==> pack_verdict(bytes) == Err::<(), PackError>(PackError::NoMetadata)
            &&& found == Some(None::<Seq<u8>>) ==> pack_verdict(bytes) == Err::<(), PackError>(
                PackError::UnreadableMetadata,
            )
            &&& found == Some(Some(content)) && !valid_utf8(content) ==> pack_verdict(bytes) == Err::<
                (),
                PackError,
            >(PackError::UnreadableMetadata)
            &&& found == Some(Some(content)) && valid_utf8(content) ==> (pack_verdict(bytes) is Ok
                <==> (json::json_of(decode_utf8(content)) matches Some(document)
                && json::has_pack_format(document)))
        },
{
}

/// A download is kept under its digest exactly if it is at most 100 MiB long, has the
/// announced digest and is a good pack.
pub proof fn downloads_are_kept_by_digest(bytes: Seq<u8>, announced: Seq<char>)
    ensures
        ({
            let digest = hash::hex(hash::sha1_of(bytes));
            let verdict = download_verdict(bytes, announced);
            &&& verdict is Ok <==> bytes.len() <= 100 * 1024 * 1024 && hash_agrees(
                announced,
                digest,
            ) && pack_verdict(bytes) is Ok
            &&& verdict matches Ok(kept) ==> kept == digest
            &&& bytes.len() > 100 * 1024 * 1024 ==> verdict == Err::<Seq<char>, PackError>(
                PackError::TooLarge,
            )
            &&& bytes.len() <= 100 * 1024 * 1024 && !hash_agrees(announced, digest) ==> verdict
                == Err::<Seq<char>, PackError>(PackError::HashMismatch)
        }),
{
}

/// Assets are what lies in `assets` and is no directory; those of the game lie in
/// `assets/minecraft`.
pub proof fn assets_lie_in_their_directory(path: Seq<char>)
    requires
        path.len() > 0,
    ensures
        is_asset("assets/"@ + path) <==> path.last() != '/',
        is_base_asset("assets/minecraft/"@ + path) <==> path.last() != '/',
{
    reveal_strlit("/");
    text::prefixes_and_suffixes_part_a_text("assets/"@, path);
    text::prefixes_and_suffixes_part_a_text("assets/minecraft/"@, path);
    lemma_ends_with_slash("assets/"@ + path);
    lemma_ends_with_slash("assets/minecraft/"@ + path);
}

proof fn lemma_ends_with_slash(name: Seq<char>)
    requires
        name.len() > 0,
    ensures
        text::ends_with(name, "/"@) <==> name.last() == '/',
{
    reveal_strlit("/");
    assert("/"@.len() == 1 && "/"@[0] == '/');
    let end = name.subrange(name.len() - 1, name.len() as int);
    if name.last() == '/' {
        assert(end =~= "/"@);
    }
    if text::ends_with(name, "/"@) {
        assert(name.subrange(name.len() - 1, name.len() as int)[0] == "/"@[0]);
    }
}

/// Each fault of a pack that is laid over a base has its error, the pack's before those of
/// the base.
pub proof fn layers_fail_for_a_reason(base: Seq<u8>, pack: Seq<u8>)
    ensures
        archive::archive_size(pack) is None ==> layered(base, pack) == Err::<Seq<u8>, PackError>(
            PackError::InvalidArchive,
        ),
        archive::archive_size(pack) matches Some(size) ==> {
            &&& !has_assets(pack, size as int) ==> layered(base, pack) == Err::<Seq<u8>, PackError>(
                PackError::NoAssets,
            )
            &&& has_assets(pack, size as int) && archive::archive_size(base) is None ==> layered(
                base,
                pack,
            ) == Err::<Seq<u8>, PackError>(PackError::InvalidBase)
            &&& has_assets(pack, size as int) && archive::archive_size(base) is Some && (
            copied_layers(base, pack) is None || archive::finished_archive(
                copied_layers(base, pack)->0,
            ) is None) ==> layered(base, pack) == Err::<Seq<u8>, PackError>(PackError::CopyFailed)
            &&& has_assets(pack, size as int) && archive::archive_size(base) is Some
                && copied_layers(base, pack) is Some && archive::finished_archive(
                copied_layers(base, pack)->0,
            ) is Some ==> layered(base, pack) is Ok
        },
{
}

/// Packs are stacked one over the other, the last on top, and the first failure counts.
pub proof fn packs_are_stacked_in_order(base: Seq<u8>, packs: Seq<Seq<u8>>, top: Seq<u8>)
    ensures
        stacked(base, Seq::empty()) == Ok::<Seq<u8>, PackError>(base),
        stacked(base, packs) matches Ok(below) ==> stacked(base, packs.push(top)) == layered(
            below,
            top,
        ),
        stacked(base, packs) is Err ==> stacked(base, packs.push(top)) == stacked(base, packs),
{
    assert(packs.push(top).drop_last() =~= packs);
}

/// A pack may have 100 MiB and no byte more.
pub proof fn packs_have_a_limit(length: u64, too_large: bool)
    requires
        call_ensures(is_too_large, (length,), too_large),
    ensures
        too_large <==> length > 100 * 1024 * 1024,
{
}

/// What is laid over a base is handed out, and every failure is told.
pub proof fn layers_are_handed_out(
    base: Vec<u8>,
    pack: Vec<u8>,
    packs: &Vec<Vec<u8>>,
    one: Result<Vec<u8>, PackError>,
    all: Result<Vec<u8>, PackError>,
)
    requires
        call_ensures(layer_resource_pack, (base, pack), one),
        call_ensures(stack_resource_packs, (base, packs), all),
    ensures
        layered(base@, pack@) matches Ok(bytes) ==> one is Ok && one->Ok_0@ == bytes,
        layered(base@, pack@) matches Err(error) ==> one == Err::<Vec<u8>, PackError>(error),
        packs@.len() == 0 ==> all is Ok && all->Ok_0@ == base@,
        packs@.len() == 1 ==> (layered(base@, packs@[0]@) matches Ok(bytes) ==> all is Ok
            && all->Ok_0@ == bytes),
        packs@.len() == 1 ==> (layered(base@, packs@[0]@) matches Err(error) ==> all == Err::<
            Vec<u8>,
            PackError,
        >(error)),
{
    reveal_with_fuel(stacked, 2);
    let views = byte_views(packs@);
    if packs@.len() == 1 {
        assert(views.drop_last() =~= Seq::<Seq<u8>>::empty());
        assert(views.last() == packs@[0]@);
    }
}

/// An archive with the layers of a pack over a base has an asset of some name exactly if
/// the pack has it, or it is one of the game that the base has; and it reads as in the pack
/// where that has it, and else as in the base.
pub proof fn layered_archives_hold_both(
    base: Seq<u8>,
    pack: Seq<u8>,
    layers: Seq<u8>,
    name: Seq<char>,
    at: int,
)
    requires
        has_layers(base, pack, layers),
        has_contents(base, pack, layers),
        is_asset(name),
    ensures
        has_entry(pack, name) ==> has_entry(layers, name),
        has_entry(layers, name) && !has_entry(pack, name) ==> has_entry(base, name)
            && is_base_asset(name),
        has_entry(pack, name) && all_whole(pack) ==> archive::entry_bytes_in(layers, name)
            == archive::entry_bytes_in(pack, name),
        is_base_asset(name) && has_entry(base, name) && !has_entry(pack, name) && all_whole(base)
            ==> archive::entry_bytes_in(layers, name) == archive::entry_bytes_in(base, name),
        archive::archive_size(pack) is Some && 0 <= at < archive::archive_size(pack)->0
            && archive::entry_name_in(pack, at) == Some(name) ==> has_entry(pack, name),
{
    if has_entry(layers, name) {
        assert(has_entry(pack, name) || has_entry(base, name));
    }
}

} // verus!
