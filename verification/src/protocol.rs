//! The protocol versions that a session can speak.

use vstd::prelude::*;

verus! {

#[derive(Clone, Copy, Debug, PartialEq, Eq, Structural)]
pub enum ProtocolVersion {
    V1_20_1,
    V1_20_2,
    V1_20_3,
    V1_20_5,
    V1_21,
    V1_21_2,
    V1_21_4,
    V1_21_5,
}

impl ProtocolVersion {
    /// The number a version has on the wire.
    pub open spec fn spec_number(self) -> i32 {
        match self {
            ProtocolVersion::V1_20_1 => 763,
            ProtocolVersion::V1_20_2 => 764,
            ProtocolVersion::V1_20_3 => 765,
            ProtocolVersion::V1_20_5 => 766,
            ProtocolVersion::V1_21 => 767,
            ProtocolVersion::V1_21_2 => 768,
            ProtocolVersion::V1_21_4 => 769,
            ProtocolVersion::V1_21_5 => 770,
        }
    }

    #[verifier::when_used_as_spec(spec_number)]
    pub fn number(self) -> (n: i32)
        ensures
            n == self.spec_number(),
    {
        match self {
            ProtocolVersion::V1_20_1 => 763,
            ProtocolVersion::V1_20_2 => 764,
            ProtocolVersion::V1_20_3 => 765,
            ProtocolVersion::V1_20_5 => 766,
            ProtocolVersion::V1_21 => 767,
            ProtocolVersion::V1_21_2 => 768,
            ProtocolVersion::V1_21_4 => 769,
            ProtocolVersion::V1_21_5 => 770,
        }
    }

    /// Text components travel as NBT from protocol 765 on, as JSON before.
    pub open spec fn nbt_components(self) -> bool {
        self.number() >= 765
    }

    #[verifier::when_used_as_spec(nbt_components)]
    pub fn uses_nbt_components(self) -> (r: bool)
        ensures
            r == self.nbt_components(),
    {
        self.number() >= 765
    }

    /// Items carry data components from protocol 766 on, NBT before.
    pub open spec fn data_components(self) -> bool {
        self.number() >= 766
    }

    #[verifier::when_used_as_spec(data_components)]
    pub fn uses_data_components(self) -> (r: bool)
        ensures
            r == self.data_components(),
    {
        self.number() >= 766
    }

    /// Registries arrive one by one from protocol 766 on.
    pub open spec fn split_registry(self) -> bool {
        self.number() >= 766
    }

    #[verifier::when_used_as_spec(split_registry)]
    pub fn uses_split_registry(self) -> (r: bool)
        ensures
            r == self.split_registry(),
    {
        self.number() >= 766
    }

    /// The versions from 1.21.2 on, with the extended position synchronisation.
    pub open spec fn spec_since_768(self) -> bool {
        self.number() >= 768
    }

    #[verifier::when_used_as_spec(spec_since_768)]
    pub fn since_768(self) -> (r: bool)
        ensures
            r == self.spec_since_768(),
    {
        self.number() >= 768
    }

    /// The versions from 1.21.4 on.
    pub open spec fn spec_since_769(self) -> bool {
        self.number() >= 769
    }

    #[verifier::when_used_as_spec(spec_since_769)]
    pub fn since_769(self) -> (r: bool)
        ensures
            r == self.spec_since_769(),
    {
        self.number() >= 769
    }
}

/// No two versions share a number.
pub proof fn numbers_identify_versions(a: ProtocolVersion, b: ProtocolVersion)
    ensures
        a.number() == b.number() <==> a == b,
{
}

/// The versions are numbered one by one from 763 on, and what a version can do all
/// later ones can: NBT components come with 1.20.3, data components and single
/// registries with 1.20.5, and the later changes with 1.21.2 and 1.21.4.
pub proof fn abilities_come_with_versions(version: ProtocolVersion)
    ensures
        763 <= version.number() <= 770,
        version is V1_20_1 <==> version.number() == 763,
        version is V1_20_2 <==> version.number() == 764,
        version is V1_20_3 <==> version.number() == 765,
        version is V1_20_5 <==> version.number() == 766,
        version is V1_21 <==> version.number() == 767,
        version is V1_21_2 <==> version.number() == 768,
        version is V1_21_4 <==> version.number() == 769,
        version is V1_21_5 <==> version.number() == 770,
        version.nbt_components() <==> version !is V1_20_1 && version !is V1_20_2,
        version.data_components() <==> version.nbt_components() && version !is V1_20_3,
        version.split_registry() <==> version.data_components(),
        version.since_768() <==> version is V1_21_2 || version is V1_21_4 || version is V1_21_5,
        version.since_769() <==> version is V1_21_4 || version is V1_21_5,
{
}

} // verus!
