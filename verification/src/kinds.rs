//! Relationship kinds, their inverses, and small sets of kinds.

use vstd::prelude::*;

verus! {

/// How one song relates to another, as the provider reports it.
#[derive(Clone, Copy, Debug, PartialEq, Eq, Hash, Structural)]
pub enum RelationshipKind {
    Samples,
    SampledIn,
    Interpolates,
    InterpolatedBy,
    CoverOf,
    CoveredBy,
    RemixOf,
    RemixedBy,
    LiveVersionOf,
    PerformedLiveAs,
    TranslationOf,
    Translations,
    Unknown,
}

impl RelationshipKind {
    /// The kind that the same relationship has when read from its target
    /// back to its source.
    pub open spec fn inverse_spec(self) -> RelationshipKind {
        match self {
            RelationshipKind::Samples => RelationshipKind::SampledIn,
            RelationshipKind::SampledIn => RelationshipKind::Samples,
            RelationshipKind::Interpolates => RelationshipKind::InterpolatedBy,
            RelationshipKind::InterpolatedBy => RelationshipKind::Interpolates,
            RelationshipKind::CoverOf => RelationshipKind::CoveredBy,
            RelationshipKind::CoveredBy => RelationshipKind::CoverOf,
            RelationshipKind::RemixOf => RelationshipKind::RemixedBy,
            RelationshipKind::RemixedBy => RelationshipKind::RemixOf,
            RelationshipKind::LiveVersionOf => RelationshipKind::PerformedLiveAs,
            RelationshipKind::PerformedLiveAs => RelationshipKind::LiveVersionOf,
            RelationshipKind::TranslationOf => RelationshipKind::Translations,
            RelationshipKind::Translations => RelationshipKind::TranslationOf,
            RelationshipKind::Unknown => RelationshipKind::Unknown,
        }
    }

    /// Whether the kind is one of the two translation kinds, which the
    /// traversal leaves out of the graph altogether.
    pub open spec fn is_translation_spec(self) -> bool {
        self == RelationshipKind::TranslationOf || self == RelationshipKind::Translations
    }

    /// The position of the kind in the declaration, from 0 to 12.
    pub open spec fn index_spec(self) -> nat {
        match self {
            RelationshipKind::Samples => 0,
            RelationshipKind::SampledIn => 1,
            RelationshipKind::Interpolates => 2,
            RelationshipKind::InterpolatedBy => 3,
            RelationshipKind::CoverOf => 4,
            RelationshipKind::CoveredBy => 5,
            RelationshipKind::RemixOf => 6,
            RelationshipKind::RemixedBy => 7,
            RelationshipKind::LiveVersionOf => 8,
            RelationshipKind::PerformedLiveAs => 9,
            RelationshipKind::TranslationOf => 10,
            RelationshipKind::Translations => 11,
            RelationshipKind::Unknown => 12,
        }
    }

    /// The kind at a position of the declaration; `Unknown` past the end.
    pub open spec fn at_spec(index: nat) -> RelationshipKind {
        if index == 0 {
            RelationshipKind::Samples
        } else if index == 1 {
            RelationshipKind::SampledIn
        } else if index == 2 {
            RelationshipKind::Interpolates
        } else if index == 3 {
            RelationshipKind::InterpolatedBy
        } else if index == 4 {
            RelationshipKind::CoverOf
        } else if index == 5 {
            RelationshipKind::CoveredBy
        } else if index == 6 {
            RelationshipKind::RemixOf
        } else if index == 7 {
            RelationshipKind::RemixedBy
        } else if index == 8 {
            RelationshipKind::LiveVersionOf
        } else if index == 9 {
            RelationshipKind::PerformedLiveAs
        } else if index == 10 {
            RelationshipKind::TranslationOf
        } else if index == 11 {
            RelationshipKind::Translations
        } else {
            RelationshipKind::Unknown
        }
    }

    /// The name of the kind on the wire, in snake case.
    pub open spec fn name_spec(self) -> Seq<char> {
        match self {
            RelationshipKind::Samples => "samples"@,
            RelationshipKind::SampledIn => "sampled_in"@,
            RelationshipKind::Interpolates => "interpolates"@,
            RelationshipKind::InterpolatedBy => "interpolated_by"@,
            RelationshipKind::CoverOf => "cover_of"@,
            RelationshipKind::CoveredBy => "covered_by"@,
            RelationshipKind::RemixOf => "remix_of"@,
            RelationshipKind::RemixedBy => "remixed_by"@,
            RelationshipKind::LiveVersionOf => "live_version_of"@,
            RelationshipKind::PerformedLiveAs => "performed_live_as"@,
            RelationshipKind::TranslationOf => "translation_of"@,
            RelationshipKind::Translations => "translations"@,
            RelationshipKind::Unknown => "unknown"@,
        }
    }

    #[verifier::when_used_as_spec(inverse_spec)]
    pub fn inverse(self) -> (r: RelationshipKind)
        ensures
            r == self.inverse_spec(),
    {
        match self {
            RelationshipKind::Samples => RelationshipKind::SampledIn,
            RelationshipKind::SampledIn => RelationshipKind::Samples,
            RelationshipKind::Interpolates => RelationshipKind::InterpolatedBy,
            RelationshipKind::InterpolatedBy => RelationshipKind::Interpolates,
            RelationshipKind::CoverOf => RelationshipKind::CoveredBy,
            RelationshipKind::CoveredBy => RelationshipKind::CoverOf,
            RelationshipKind::RemixOf => RelationshipKind::RemixedBy,
            RelationshipKind::RemixedBy => RelationshipKind::RemixOf,
            RelationshipKind::LiveVersionOf => RelationshipKind::PerformedLiveAs,
            RelationshipKind::PerformedLiveAs => RelationshipKind::LiveVersionOf,
            RelationshipKind::TranslationOf => RelationshipKind::Translations,
            RelationshipKind::Translations => RelationshipKind::TranslationOf,
            RelationshipKind::Unknown => RelationshipKind::Unknown,
        }
    }

    #[verifier::when_used_as_spec(is_translation_spec)]
    pub fn is_translation(self) -> (b: bool)
        ensures
            b == self.is_translation_spec(),
    {
        match self {
            RelationshipKind::TranslationOf => true,
            RelationshipKind::Translations => true,
            _ => false,
        }
    }

    pub fn index(self) -> (i: u8)
        ensures
            i == self.index_spec(),
            i < 13,
    {
        match self {
            RelationshipKind::Samples => 0,
            RelationshipKind::SampledIn => 1,
            RelationshipKind::Interpolates => 2,
            RelationshipKind::InterpolatedBy => 3,
            RelationshipKind::CoverOf => 4,
            RelationshipKind::CoveredBy => 5,
            RelationshipKind::RemixOf => 6,
            RelationshipKind::RemixedBy => 7,
            RelationshipKind::LiveVersionOf => 8,
            RelationshipKind::PerformedLiveAs => 9,
            RelationshipKind::TranslationOf => 10,
            RelationshipKind::Translations => 11,
            RelationshipKind::Unknown => 12,
        }
    }

    /// The kind at position `index` of the declaration, if there is one.
    pub fn at(index: u8) -> (r: Option<RelationshipKind>)
        ensures
            index < 13 ==> r == Some(RelationshipKind::at_spec(index as nat)),
            index >= 13 ==> r is None,
            r matches Some(k) ==> k.index_spec() == index,
    {
        match index {
            0 => Some(RelationshipKind::Samples),
            1 => Some(RelationshipKind::SampledIn),
            2 => Some(RelationshipKind::Interpolates),
            3 => Some(RelationshipKind::InterpolatedBy),
            4 => Some(RelationshipKind::CoverOf),
            5 => Some(RelationshipKind::CoveredBy),
            6 => Some(RelationshipKind::RemixOf),
            7 => Some(RelationshipKind::RemixedBy),
            8 => Some(RelationshipKind::LiveVersionOf),
            9 => Some(RelationshipKind::PerformedLiveAs),
            10 => Some(RelationshipKind::TranslationOf),
            11 => Some(RelationshipKind::Translations),
            12 => Some(RelationshipKind::Unknown),
            _ => None,
        }
    }

    pub fn name(self) -> (s: &'static str)
        ensures
            s@ == self.name_spec(),
    {
        match self {
            RelationshipKind::Samples => "samples",
            RelationshipKind::SampledIn => "sampled_in",
            RelationshipKind::Interpolates => "interpolates",
            RelationshipKind::InterpolatedBy => "interpolated_by",
            RelationshipKind::CoverOf => "cover_of",
            RelationshipKind::CoveredBy => "covered_by",
            RelationshipKind::RemixOf => "remix_of",
            RelationshipKind::RemixedBy => "remixed_by",
            RelationshipKind::LiveVersionOf => "live_version_of",
            RelationshipKind::PerformedLiveAs => "performed_live_as",
            RelationshipKind::TranslationOf => "translation_of",
            RelationshipKind::Translations => "translations",
            RelationshipKind::Unknown => "unknown",
        }
    }
}

/// Taking the inverse twice gives the kind back.
pub proof fn lemma_inverse_involution(k: RelationshipKind)
    ensures
        k.inverse_spec().inverse_spec() == k,
{
}

/// The inverse of a kind is a translation kind exactly when the kind is.
pub proof fn lemma_inverse_keeps_translation(k: RelationshipKind)
    ensures
        k.inverse_spec().is_translation_spec() == k.is_translation_spec(),
{
}

/// A kind stands at its own position, and there are thirteen positions.
pub proof fn lemma_index_round_trip(k: RelationshipKind)
    ensures
        RelationshipKind::at_spec(k.index_spec()) == k,
        k.index_spec() < 13,
{
}

/// The bit that stands for a kind in a `KindSet`.
pub open spec fn kind_bit(k: RelationshipKind) -> u16 {
    match k {
        RelationshipKind::Samples => 0x0001,
        RelationshipKind::SampledIn => 0x0002,
        RelationshipKind::Interpolates => 0x0004,
        RelationshipKind::InterpolatedBy => 0x0008,
        RelationshipKind::CoverOf => 0x0010,
        RelationshipKind::CoveredBy => 0x0020,
        RelationshipKind::RemixOf => 0x0040,
        RelationshipKind::RemixedBy => 0x0080,
        RelationshipKind::LiveVersionOf => 0x0100,
        RelationshipKind::PerformedLiveAs => 0x0200,
        RelationshipKind::TranslationOf => 0x0400,
        RelationshipKind::Translations => 0x0800,
        RelationshipKind::Unknown => 0x1000,
    }
}

/// Setting one kind's bit in a mask sets that bit and changes no other
/// kind's bit.
proof fn lemma_set_bit(mask: u16, a: u16, b: u16)
    by (bit_vector)
    requires
        a == 0x0001 || a == 0x0002 || a == 0x0004 || a == 0x0008 || a == 0x0010 || a == 0x0020 || a
            == 0x0040 || a == 0x0080 || a == 0x0100 || a == 0x0200 || a == 0x0400 || a == 0x0800
            || a == 0x1000,
        b == 0x0001 || b == 0x0002 || b == 0x0004 || b == 0x0008 || b == 0x0010 || b == 0x0020 || b
            == 0x0040 || b == 0x0080 || b == 0x0100 || b == 0x0200 || b == 0x0400 || b == 0x0800
            || b == 0x1000,
    ensures
        ((mask | a) & b != 0) == (a == b || (mask & b) != 0),
        0u16 & b == 0,
{
}

/// A set of relationship kinds, one bit per kind. It is the weight that the
/// graph keeps for an ordered pair of songs.
#[derive(Clone, Copy, Debug, PartialEq, Eq, Structural)]
pub struct KindSet {
    pub bits: u16,
}

impl View for KindSet {
    type V = Set<RelationshipKind>;

    open spec fn view(&self) -> Set<RelationshipKind> {
        mask_kinds(self.bits)
    }
}

/// The kinds whose bits are set in `bits`.
pub open spec fn mask_kinds(bits: u16) -> Set<RelationshipKind> {
    Set::new(|k: RelationshipKind| bits & kind_bit(k) != 0)
}

impl KindSet {
    pub fn empty() -> (s: KindSet)
        ensures
            s@ == Set::<RelationshipKind>::empty(),
            s.bits == 0,
    {
        let s = KindSet { bits: 0 };
        proof {
            assert forall|k: RelationshipKind| !s@.contains(k) by {
                lemma_set_bit(0, kind_bit(k), kind_bit(k));
            }
            assert(s@ =~= Set::<RelationshipKind>::empty());
        }
        s
    }

    pub fn from_bits(bits: u16) -> (s: KindSet)
        ensures
            s.bits == bits,
    {
        KindSet { bits }
    }

    fn bit(kind: RelationshipKind) -> (b: u16)
        ensures
            b == kind_bit(kind),
    {
        match kind {
            RelationshipKind::Samples => 0x0001,
            RelationshipKind::SampledIn => 0x0002,
            RelationshipKind::Interpolates => 0x0004,
            RelationshipKind::InterpolatedBy => 0x0008,
            RelationshipKind::CoverOf => 0x0010,
            RelationshipKind::CoveredBy => 0x0020,
            RelationshipKind::RemixOf => 0x0040,
            RelationshipKind::RemixedBy => 0x0080,
            RelationshipKind::LiveVersionOf => 0x0100,
            RelationshipKind::PerformedLiveAs => 0x0200,
            RelationshipKind::TranslationOf => 0x0400,
            RelationshipKind::Translations => 0x0800,
            RelationshipKind::Unknown => 0x1000,
        }
    }

    pub fn contains(self, kind: RelationshipKind) -> (b: bool)
        ensures
            b == self@.contains(kind),
    {
        self.bits & KindSet::bit(kind) != 0
    }

    pub fn insert(self, kind: RelationshipKind) -> (s: KindSet)
        ensures
            s@ == self@.insert(kind),
    {
        let s = KindSet { bits: self.bits | KindSet::bit(kind) };
        proof {
            assert forall|k: RelationshipKind| s@.contains(k) == self@.insert(kind).contains(k) by {
                lemma_set_bit(self.bits, kind_bit(kind), kind_bit(k));
            }
            assert(s@ =~= self@.insert(kind));
        }
        s
    }
}

} // verus!
