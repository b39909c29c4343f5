use samplegraph::kinds::{KindSet, RelationshipKind};

const ALL: [RelationshipKind; 13] = [
    RelationshipKind::Samples,
    RelationshipKind::SampledIn,
    RelationshipKind::Interpolates,
    RelationshipKind::InterpolatedBy,
    RelationshipKind::CoverOf,
    RelationshipKind::CoveredBy,
    RelationshipKind::RemixOf,
    RelationshipKind::RemixedBy,
    RelationshipKind::LiveVersionOf,
    RelationshipKind::PerformedLiveAs,
    RelationshipKind::TranslationOf,
    RelationshipKind::Translations,
    RelationshipKind::Unknown,
];

#[test]
fn inverse_follows_the_table() {
    assert_eq!(RelationshipKind::Samples.inverse(), RelationshipKind::SampledIn);
    assert_eq!(RelationshipKind::Interpolates.inverse(), RelationshipKind::InterpolatedBy);
    assert_eq!(RelationshipKind::CoverOf.inverse(), RelationshipKind::CoveredBy);
    assert_eq!(RelationshipKind::RemixOf.inverse(), RelationshipKind::RemixedBy);
    assert_eq!(RelationshipKind::LiveVersionOf.inverse(), RelationshipKind::PerformedLiveAs);
    assert_eq!(RelationshipKind::TranslationOf.inverse(), RelationshipKind::Translations);
    assert_eq!(RelationshipKind::Unknown.inverse(), RelationshipKind::Unknown);
}

#[test]
fn inverse_table_reads_both_ways() {
    assert_eq!(RelationshipKind::SampledIn.inverse(), RelationshipKind::Samples);
    assert_eq!(RelationshipKind::InterpolatedBy.inverse(), RelationshipKind::Interpolates);
    assert_eq!(RelationshipKind::CoveredBy.inverse(), RelationshipKind::CoverOf);
    assert_eq!(RelationshipKind::RemixedBy.inverse(), RelationshipKind::RemixOf);
    assert_eq!(RelationshipKind::PerformedLiveAs.inverse(), RelationshipKind::LiveVersionOf);
    assert_eq!(RelationshipKind::Translations.inverse(), RelationshipKind::TranslationOf);
}

#[test]
fn inverse_twice_is_identity() {
    for kind in ALL {
        assert_eq!(kind.inverse().inverse(), kind);
    }
}

#[test]
fn only_unknown_is_its_own_inverse() {
    for kind in ALL {
        assert_eq!(kind.inverse() == kind, kind == RelationshipKind::Unknown);
    }
}

#[test]
fn translation_kinds_are_exactly_two() {
    for kind in ALL {
        let expected =
            kind == RelationshipKind::TranslationOf || kind == RelationshipKind::Translations;
        assert_eq!(kind.is_translation(), expected);
    }
}

#[test]
fn inverse_keeps_translation() {
    for kind in ALL {
        assert_eq!(kind.inverse().is_translation(), kind.is_translation());
    }
}

#[test]
fn index_and_at_agree() {
    for (position, kind) in ALL.iter().enumerate() {
        assert_eq!(kind.index() as usize, position);
        assert_eq!(RelationshipKind::at(position as u8), Some(*kind));
    }
    assert_eq!(RelationshipKind::at(13), None);
    assert_eq!(RelationshipKind::at(255), None);
}

#[test]
fn names_are_snake_case() {
    assert_eq!(RelationshipKind::Samples.name(), "samples");
    assert_eq!(RelationshipKind::SampledIn.name(), "sampled_in");
    assert_eq!(RelationshipKind::Interpolates.name(), "interpolates");
    assert_eq!(RelationshipKind::InterpolatedBy.name(), "interpolated_by");
    assert_eq!(RelationshipKind::CoverOf.name(), "cover_of");
    assert_eq!(RelationshipKind::CoveredBy.name(), "covered_by");
    assert_eq!(RelationshipKind::RemixOf.name(), "remix_of");
    assert_eq!(RelationshipKind::RemixedBy.name(), "remixed_by");
    assert_eq!(RelationshipKind::LiveVersionOf.name(), "live_version_of");
    assert_eq!(RelationshipKind::PerformedLiveAs.name(), "performed_live_as");
    assert_eq!(RelationshipKind::TranslationOf.name(), "translation_of");
    assert_eq!(RelationshipKind::Translations.name(), "translations");
    assert_eq!(RelationshipKind::Unknown.name(), "unknown");
}

#[test]
fn empty_kind_set_holds_nothing() {
    let set = KindSet::empty();
    assert_eq!(set.bits, 0);
    for kind in ALL {
        assert!(!set.contains(kind));
    }
}

#[test]
fn kind_set_insert_adds_one_kind() {
    for added in ALL {
        let set = KindSet::empty().insert(added);
        for kind in ALL {
            assert_eq!(set.contains(kind), kind == added);
        }
    }
}

#[test]
fn kind_set_insert_is_idempotent() {
    let once = KindSet::empty().insert(RelationshipKind::CoverOf);
    let twice = once.insert(RelationshipKind::CoverOf);
    assert_eq!(once, twice);
    assert_eq!(once.bits, 0x0010);
}

#[test]
fn kind_set_keeps_earlier_kinds() {
    let set = KindSet::empty()
        .insert(RelationshipKind::Samples)
        .insert(RelationshipKind::Unknown)
        .insert(RelationshipKind::RemixedBy);
    assert_eq!(set.bits, 0x0001 | 0x1000 | 0x0080);
    assert!(set.contains(RelationshipKind::Samples));
    assert!(set.contains(RelationshipKind::Unknown));
    assert!(set.contains(RelationshipKind::RemixedBy));
    assert!(!set.contains(RelationshipKind::RemixOf));
    assert_eq!(KindSet::from_bits(0x1081), set);
}
