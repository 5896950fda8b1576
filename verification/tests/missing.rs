use qamydata::missing::{classify, Missing, MissingSignals};

#[test]
fn no_signal_is_not_missing() {
    assert_eq!(classify(false, false, 'x', false), Missing::NotMissing);
}

#[test]
fn system_signal_alone_is_system_missing() {
    assert_eq!(classify(true, false, 'x', false), Missing::SystemMissing);
}

#[test]
fn defined_signal_alone_is_defined_missing() {
    assert_eq!(classify(false, false, 'x', true), Missing::DefinedMissing);
}

#[test]
fn defined_wins_over_system() {
    assert_eq!(classify(true, false, 'x', true), Missing::DefinedMissing);
}

#[test]
fn tag_alone_is_tagged_missing() {
    assert_eq!(classify(false, true, 'a', false), Missing::TaggedMissing('a'));
}

#[test]
fn tag_wins_over_system() {
    assert_eq!(classify(true, true, 'b', false), Missing::TaggedMissing('b'));
}

#[test]
fn tag_wins_over_defined() {
    assert_eq!(classify(false, true, 'c', true), Missing::TaggedMissing('c'));
}

#[test]
fn tag_wins_over_everything() {
    assert_eq!(classify(true, true, 'z', true), Missing::TaggedMissing('z'));
}

#[test]
fn tag_is_ignored_without_the_tagged_signal() {
    assert_eq!(classify(true, false, 'q', false), classify(true, false, 'r', false));
}

#[test]
fn every_combination_has_one_category() {
    let mut seen = 0;
    for system in [false, true] {
        for tagged in [false, true] {
            for defined in [false, true] {
                let missing = classify(system, tagged, 't', defined);
                let expected = if tagged {
                    Missing::TaggedMissing('t')
                } else if defined {
                    Missing::DefinedMissing
                } else if system {
                    Missing::SystemMissing
                } else {
                    Missing::NotMissing
                };
                assert_eq!(missing, expected);
                seen += 1;
            }
        }
    }
    assert_eq!(seen, 8);
}

#[test]
fn signals_classify_like_the_function() {
    let signals = MissingSignals {
        is_system_missing: true,
        is_tagged_missing: false,
        tag: 'k',
        is_defined_missing: false,
    };
    assert_eq!(signals.classify(), Missing::SystemMissing);
    assert!(!signals.conflict());
}

#[test]
fn system_and_defined_without_tag_conflict() {
    let signals = MissingSignals {
        is_system_missing: true,
        is_tagged_missing: false,
        tag: 'k',
        is_defined_missing: true,
    };
    assert!(signals.conflict());
}

#[test]
fn a_tag_settles_the_conflict() {
    let signals = MissingSignals {
        is_system_missing: true,
        is_tagged_missing: true,
        tag: 'k',
        is_defined_missing: true,
    };
    assert!(!signals.conflict());
    assert_eq!(signals.classify(), Missing::TaggedMissing('k'));
}
