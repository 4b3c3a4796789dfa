use yabaictl::label::space::{
    LabelDialect, ParseSpaceLabelError, ParseStableSpaceIndexError, StableSpaceIndex,
    FIRST_STABLE_INDEX, LAST_STABLE_INDEX,
};
use yabaictl::label::Labelable;
use yabaictl::text::ParseIntError;
use yabaictl::yabai::transport::Space;

fn stable(value: u32) -> StableSpaceIndex {
    StableSpaceIndex::new(value).expect("a supported stable index")
}

#[test]
fn create_space_labels() {
    assert_eq!("1: Hello", Space::label(stable(1), Some("Hello")));
    assert_eq!("1:", Space::label(stable(1), None));
}

#[test]
fn gets_space_index_from_label() {
    assert_eq!(Ok(stable(10)), Space::parse_index("10: hello"));

    assert_eq!(
        Err(ParseSpaceLabelError::MissingColon {
            label: "1".to_owned()
        }),
        Space::parse_index("1")
    );
    assert_eq!(
        Err(ParseSpaceLabelError::MissingColon {
            label: "hello".to_owned()
        }),
        Space::parse_index("hello"),
    );
    assert!(matches!(
        Space::parse_index("hi: hello"),
        Err(ParseSpaceLabelError::ParseStableIndexError {
            label: _label,
            prefix: _prefix,
            cause: ParseStableSpaceIndexError::ParseIntError(..)
        }),
    ));

    {
        let mut label = (LAST_STABLE_INDEX + 1).to_string();
        let stable_index_exceeding_max = label.clone();

        label.push_str(": hello");

        assert_eq!(
            Err(ParseSpaceLabelError::ParseStableIndexError {
                label: label.clone(),
                prefix: stable_index_exceeding_max,
                cause: ParseStableSpaceIndexError::OutOfBounds
            }),
            Space::parse_index(&label),
        );
    }
}

#[test]
fn stable_indexes_are_one_to_ten() {
    assert_eq!(FIRST_STABLE_INDEX, 1);
    assert_eq!(LAST_STABLE_INDEX, 10);
    assert_eq!(StableSpaceIndex::new(0), Err(ParseStableSpaceIndexError::OutOfBounds));
    assert_eq!(StableSpaceIndex::new(11), Err(ParseStableSpaceIndexError::OutOfBounds));
    for value in 1..=10 {
        assert_eq!(StableSpaceIndex::new(value).map(|index| index.get()), Ok(value));
    }
}

#[test]
fn stable_index_from_text() {
    assert_eq!(StableSpaceIndex::from_str("7").map(|index| index.get()), Ok(7));
    assert_eq!(StableSpaceIndex::from_str("+7").map(|index| index.get()), Ok(7));
    assert_eq!(StableSpaceIndex::from_str("007").map(|index| index.get()), Ok(7));
    assert_eq!(
        StableSpaceIndex::from_str(""),
        Err(ParseStableSpaceIndexError::ParseIntError(ParseIntError::Empty))
    );
    assert_eq!(
        StableSpaceIndex::from_str("+"),
        Err(ParseStableSpaceIndexError::ParseIntError(ParseIntError::InvalidDigit))
    );
    assert_eq!(
        StableSpaceIndex::from_str("-1"),
        Err(ParseStableSpaceIndexError::ParseIntError(ParseIntError::InvalidDigit))
    );
    assert_eq!(
        StableSpaceIndex::from_str("1 "),
        Err(ParseStableSpaceIndexError::ParseIntError(ParseIntError::InvalidDigit))
    );
    assert_eq!(StableSpaceIndex::from_str("0"), Err(ParseStableSpaceIndexError::OutOfBounds));
    assert_eq!(StableSpaceIndex::from_str("11"), Err(ParseStableSpaceIndexError::OutOfBounds));
}

#[test]
fn a_number_of_any_length_is_out_of_bounds() {
    assert_eq!(
        StableSpaceIndex::from_str("4294967296"),
        Err(ParseStableSpaceIndexError::OutOfBounds)
    );
    assert_eq!(
        StableSpaceIndex::from_str("99999999999999999999999999999999999999"),
        Err(ParseStableSpaceIndexError::OutOfBounds)
    );
    assert_eq!(
        Space::parse_index("99999999999999999999999: far"),
        Err(ParseSpaceLabelError::ParseStableIndexError {
            label: "99999999999999999999999: far".to_owned(),
            prefix: "99999999999999999999999".to_owned(),
            cause: ParseStableSpaceIndexError::OutOfBounds
        })
    );
}

#[test]
fn an_empty_prefix_is_no_number() {
    assert_eq!(
        Space::parse_index(": hello"),
        Err(ParseSpaceLabelError::ParseStableIndexError {
            label: ": hello".to_owned(),
            prefix: String::new(),
            cause: ParseStableSpaceIndexError::ParseIntError(ParseIntError::Empty)
        })
    );
}

#[test]
fn only_the_first_colon_counts() {
    assert_eq!(Space::parse_index("3:a:b").map(|index| index.get()), Ok(3));
    assert_eq!(Space::parse_index("3::").map(|index| index.get()), Ok(3));
}

#[test]
fn labels_may_hold_any_characters() {
    assert_eq!(Space::parse_index("2: caf\u{e9} \u{1f600}").map(|index| index.get()), Ok(2));
    assert_eq!(
        Space::parse_index("\u{e9}: x"),
        Err(ParseSpaceLabelError::ParseStableIndexError {
            label: "\u{e9}: x".to_owned(),
            prefix: "\u{e9}".to_owned(),
            cause: ParseStableSpaceIndexError::ParseIntError(ParseIntError::InvalidDigit)
        })
    );
    assert_eq!("2: caf\u{e9}", Space::label(stable(2), Some("caf\u{e9}")));
}

#[test]
fn the_dialect_decides_on_labels_without_a_colon() {
    assert_eq!(
        Space::parse_label("10", LabelDialect::ColonRequired),
        Err(ParseSpaceLabelError::MissingColon { label: "10".to_owned() })
    );
    assert_eq!(
        Space::parse_label("10", LabelDialect::ColonOptional).map(|index| index.get()),
        Ok(10)
    );
    assert_eq!(
        Space::parse_label("hello", LabelDialect::ColonOptional),
        Err(ParseSpaceLabelError::ParseStableIndexError {
            label: "hello".to_owned(),
            prefix: "hello".to_owned(),
            cause: ParseStableSpaceIndexError::ParseIntError(ParseIntError::InvalidDigit)
        })
    );
    assert_eq!(
        Space::parse_label("4: x", LabelDialect::ColonOptional).map(|index| index.get()),
        Ok(4)
    );
}

#[test]
fn a_label_carries_the_index_it_was_made_for() {
    for value in 1..=10 {
        for description in [None, Some(""), Some("work"), Some("a: b")] {
            let label = Space::label(stable(value), description);
            for dialect in [LabelDialect::ColonRequired, LabelDialect::ColonOptional] {
                assert_eq!(Space::parse_label(&label, dialect).map(|index| index.get()), Ok(value));
            }
        }
    }
}

#[test]
fn the_colon_is_there_without_a_description() {
    assert_eq!("10:", Space::label(stable(10), None));
    assert_eq!("10: ", Space::label(stable(10), Some("")));
}

#[test]
fn stable_indexes_convert_to_and_from_numbers() {
    assert_eq!(StableSpaceIndex::try_from(4), Ok(stable(4)));
    assert_eq!(StableSpaceIndex::try_from(0), Err(ParseStableSpaceIndexError::OutOfBounds));
    assert_eq!(StableSpaceIndex::try_from(11), Err(ParseStableSpaceIndexError::OutOfBounds));
    assert_eq!(u32::from(stable(9)), 9);
    assert_eq!(<Space as Labelable>::index_number(&stable(3)), 3);
    assert_eq!(<Space as Labelable>::index_from_number(3), Some(stable(3)));
    assert_eq!(<Space as Labelable>::index_from_number(0), None);
    assert_eq!(<Space as Labelable>::index_range().start, FIRST_STABLE_INDEX);
    assert_eq!(<Space as Labelable>::index_range().end, LAST_STABLE_INDEX);
}

#[test]
fn every_error_tells_the_label_that_it_is_about() {
    let labels = ["", "12", "hello", ": hello", "hi: hello", "0:", "11: far", "\u{e9}:\u{e9}", "+"];
    for label in labels {
        for dialect in [LabelDialect::ColonRequired, LabelDialect::ColonOptional] {
            let error = Space::parse_label(label, dialect).expect_err("no index is written there");
            assert_eq!(error.label(), label);
            assert_eq!(Space::parse_index_in(label, dialect), Err(error));
        }
        assert_eq!(
            Space::parse_index(label),
            Space::parse_label(label, LabelDialect::ColonRequired)
        );
    }
}
