pub use super::labelable::LabelDialect;
use super::labelable::{IndexRange, Labelable};
use crate::sequences::{position_of, position_of_is_first};
use crate::text::{
    chars_of, decimal_digits, decimal_digits_denote, find_char, is_digit, is_numeral,
    leading_chars, numeral_value, parse_numeral, parsed_numeral, push_decimal, Numeral,
    ParseIntError,
};
use crate::yabai::transport::Space;
use vstd::prelude::*;
use vstd::string::StringExecFns;

verus! {

/// The lowest stable index.  Zero is reserved and never issued.
pub const FIRST_STABLE_INDEX: u32 = 1;

/// The highest stable index.
pub const LAST_STABLE_INDEX: u32 = 10;

/// The stable indexes that spaces can have.
pub open spec fn supported_stable_indexes() -> IndexRange {
    IndexRange { start: FIRST_STABLE_INDEX, end: LAST_STABLE_INDEX }
}

/// Space index that remains stable when the space moves across displays or is
/// reordered.  It is kept as the prefix of the label of the space.
#[derive(Debug, Clone, Copy, PartialEq, Eq, PartialOrd, Ord)]
pub struct StableSpaceIndex(u32);

/// Why a text is no stable index.
#[derive(Debug, Clone, Copy, PartialEq, Eq, Structural)]
pub enum ParseStableSpaceIndexError {
    /// The text is no numeral.
    ParseIntError(ParseIntError),
    /// The text is a numeral, of a number outside the supported range.
    OutOfBounds,
}

impl View for StableSpaceIndex {
    type V = u32;

    closed spec fn view(&self) -> u32 {
        self.0
    }
}

impl StableSpaceIndex {
    #[verifier::type_invariant]
    spec fn is_supported(self) -> bool {
        supported_stable_indexes().holds(self.0)
    }

    /// The stable index for `value`, which must lie in the supported range.
    pub fn new(value: u32) -> (outcome: Result<Self, ParseStableSpaceIndexError>)
        ensures
            match outcome {
                Ok(index) => supported_stable_indexes().holds(value) && index@ == value,
                Err(error) => !supported_stable_indexes().holds(value) && error
                    == ParseStableSpaceIndexError::OutOfBounds,
            },
    {
        if value < FIRST_STABLE_INDEX || value > LAST_STABLE_INDEX {
            Err(ParseStableSpaceIndexError::OutOfBounds)
        } else {
            Ok(Self(value))
        }
    }

    /// Two stable indexes for the same number are the same index.
    pub proof fn number_identifies(a: Self, b: Self)
        requires
            a@ == b@,
        ensures
            a == b,
    {
    }

    /// The number of the index.
    pub fn get(&self) -> (value: u32)
        ensures
            value == self@,
            supported_stable_indexes().holds(value),
    {
        proof {
            use_type_invariant(self);
        }
        self.0
    }

    /// What `from_str` gives for the text `s`, with the index as its number.
    pub open spec fn parsed(s: Seq<char>) -> Result<u32, ParseStableSpaceIndexError> {
        match parsed_numeral(s, LAST_STABLE_INDEX) {
            Err(error) => Err(ParseStableSpaceIndexError::ParseIntError(error)),
            Ok(Numeral::Above) => Err(ParseStableSpaceIndexError::OutOfBounds),
            Ok(Numeral::Within(value)) => if value < FIRST_STABLE_INDEX {
                Err(ParseStableSpaceIndexError::OutOfBounds)
            } else {
                Ok(value)
            },
        }
    }

    /// Reads a stable index from a numeral.
    pub fn from_chars(chars: &Vec<char>) -> (outcome: Result<Self, ParseStableSpaceIndexError>)
        ensures
            match outcome {
                Ok(index) => Self::parsed(chars@) == Ok::<u32, ParseStableSpaceIndexError>(index@),
                Err(error) => Self::parsed(chars@) == Err::<u32, ParseStableSpaceIndexError>(
                    error,
                ),
            },
    {
        match parse_numeral(chars, LAST_STABLE_INDEX) {
            Err(error) => Err(ParseStableSpaceIndexError::ParseIntError(error)),
            Ok(Numeral::Above) => Err(ParseStableSpaceIndexError::OutOfBounds),
            Ok(Numeral::Within(value)) => Self::new(value),
        }
    }

    /// Reads a stable index from a numeral.
    pub fn from_str(s: &str) -> (outcome: Result<Self, ParseStableSpaceIndexError>)
        ensures
            match outcome {
                Ok(index) => Self::parsed(s@) == Ok::<u32, ParseStableSpaceIndexError>(index@),
                Err(error) => Self::parsed(s@) == Err::<u32, ParseStableSpaceIndexError>(error),
            },
    {
        let chars = chars_of(s);
        Self::from_chars(&chars)
    }
}

impl TryFrom<u32> for StableSpaceIndex {
    type Error = ParseStableSpaceIndexError;

    fn try_from(value: u32) -> (outcome: Result<Self, ParseStableSpaceIndexError>) {
        Self::new(value)
    }
}

impl vstd::std_specs::convert::TryFromSpecImpl<u32> for StableSpaceIndex {
    open spec fn obeys_try_from_spec() -> bool {
        true
    }

    /// The stable index for `value` where it lies in the supported range.
    closed spec fn try_from_spec(value: u32) -> Result<Self, ParseStableSpaceIndexError> {
        if supported_stable_indexes().holds(value) {
            Ok(StableSpaceIndex(value))
        } else {
            Err(ParseStableSpaceIndexError::OutOfBounds)
        }
    }
}

/// Conversion from a number succeeds on the supported numbers and on no others, and
/// the index it gives stands for the number.
pub proof fn conversion_is_exact(value: u32)
    ensures
        match <StableSpaceIndex as vstd::std_specs::convert::TryFromSpec<u32>>::try_from_spec(value) {
            Ok(index) => supported_stable_indexes().holds(value) && index@ == value,
            Err(error) => !supported_stable_indexes().holds(value) && error
                == ParseStableSpaceIndexError::OutOfBounds,
        },
{
}

impl From<StableSpaceIndex> for u32 {
    fn from(value: StableSpaceIndex) -> (number: u32) {
        value.0
    }
}

impl vstd::std_specs::convert::FromSpecImpl<StableSpaceIndex> for u32 {
    open spec fn obeys_from_spec() -> bool {
        true
    }

    open spec fn from_spec(value: StableSpaceIndex) -> u32 {
        value@
    }
}

/// Why no stable index is written in a label.  Either way the label is told.
#[derive(Debug, Clone, PartialEq, Eq)]
pub enum ParseSpaceLabelError {
    /// The label holds no colon.
    MissingColon { label: String },
    /// What stands in the label where the index should is no stable index.
    ParseStableIndexError { label: String, prefix: String, cause: ParseStableSpaceIndexError },
}

/// A `ParseSpaceLabelError` with its texts as sequences of characters.
pub enum SpaceLabelFault {
    MissingColon { label: Seq<char> },
    ParseStableIndexError { label: Seq<char>, prefix: Seq<char>, cause: ParseStableSpaceIndexError },
}

impl SpaceLabelFault {
    /// The label that could not be read.
    pub open spec fn label(self) -> Seq<char> {
        match self {
            SpaceLabelFault::MissingColon { label } => label,
            SpaceLabelFault::ParseStableIndexError { label, prefix, cause } => label,
        }
    }
}

impl View for ParseSpaceLabelError {
    type V = SpaceLabelFault;

    open spec fn view(&self) -> SpaceLabelFault {
        match self {
            ParseSpaceLabelError::MissingColon { label } => SpaceLabelFault::MissingColon {
                label: label@,
            },
            ParseSpaceLabelError::ParseStableIndexError { label, prefix, cause } => {
                SpaceLabelFault::ParseStableIndexError {
                    label: label@,
                    prefix: prefix@,
                    cause: *cause,
                }
            },
        }
    }
}

impl ParseSpaceLabelError {
    /// The label that could not be read.
    pub fn label(&self) -> (label: &str)
        ensures
            label@ == self@.label(),
    {
        match self {
            ParseSpaceLabelError::MissingColon { label } => label.as_str(),
            ParseSpaceLabelError::ParseStableIndexError { label, prefix, cause } => label.as_str(),
        }
    }
}

/// The part of `label` in which the index is written, if the dialect finds one.
pub open spec fn index_text(label: Seq<char>, dialect: LabelDialect) -> Option<Seq<char>> {
    match position_of(label, ':') {
        Some(colon) => Some(label.take(colon)),
        None => match dialect {
            LabelDialect::ColonRequired => None,
            LabelDialect::ColonOptional => Some(label),
        },
    }
}

/// The number of the stable index written in `label`, or why there is none.
pub open spec fn parsed_label(label: Seq<char>, dialect: LabelDialect) -> Result<
    u32,
    SpaceLabelFault,
> {
    match index_text(label, dialect) {
        None => Err(SpaceLabelFault::MissingColon { label }),
        Some(prefix) => match StableSpaceIndex::parsed(prefix) {
            Ok(number) => Ok(number),
            Err(cause) => Err(SpaceLabelFault::ParseStableIndexError { label, prefix, cause }),
        },
    }
}

/// The label that carries the stable index `number` and, if there is one, a
/// description.  The colon is there either way.
pub open spec fn formatted_label(number: u32, description: Option<Seq<char>>) -> Seq<char> {
    decimal_digits(number as nat) + seq![':'] + match description {
        Some(text) => seq![' '] + text,
        None => Seq::empty(),
    }
}

impl Space {
    /// The label for a space with the given stable index and description.
    pub fn label(stable_index: StableSpaceIndex, description: Option<&str>) -> (label: String)
        ensures
            label@ == formatted_label(
                stable_index@,
                match description {
                    Some(text) => Some(text@),
                    None => None,
                },
            ),
    {
        proof {
            reveal_strlit(":");
            reveal_strlit(" ");
        }
        let mut output = String::new();
        push_decimal(&mut output, stable_index.get());
        output.append(":");
        assert(output@ =~= decimal_digits(stable_index@ as nat) + seq![':']);
        if let Some(description) = description {
            output.append(" ");
            output.append(description);
            assert(output@ =~= decimal_digits(stable_index@ as nat) + seq![':'] + (seq![' ']
                + description@));
        } else {
            assert(output@ =~= decimal_digits(stable_index@ as nat) + seq![':']
                + Seq::<char>::empty());
        }
        output
    }

    /// Reads the stable index that `label` carries, as `dialect` has it.  An error
    /// tells the label that it is about.
    pub fn parse_label(label: &str, dialect: LabelDialect) -> (outcome: Result<
        StableSpaceIndex,
        ParseSpaceLabelError,
    >)
        ensures
            match outcome {
                Ok(index) => parsed_label(label@, dialect) == Ok::<u32, SpaceLabelFault>(index@),
                Err(error) => parsed_label(label@, dialect) == Err::<u32, SpaceLabelFault>(
                    error@,
                ) && error@.label() == label@,
            },
    {
        let chars = chars_of(label);
        proof {
            position_of_is_first(chars@, ':');
        }
        let prefix_length = match find_char(&chars, ':') {
            Some(colon) => colon,
            None => match dialect {
                LabelDialect::ColonRequired => {
                    return Err(ParseSpaceLabelError::MissingColon { label: label.to_owned() });
                },
                LabelDialect::ColonOptional => chars.len(),
            },
        };
        let prefix = leading_chars(label, prefix_length);
        assert(label@.take(label@.len() as int) == label@);
        assert(index_text(label@, dialect) == Some(prefix@));
        let prefix_chars = chars_of(prefix.as_str());
        match StableSpaceIndex::from_chars(&prefix_chars) {
            Ok(index) => Ok(index),
            Err(cause) => Err(
                ParseSpaceLabelError::ParseStableIndexError {
                    label: label.to_owned(),
                    prefix,
                    cause,
                },
            ),
        }
    }
}

impl Labelable for Space {
    type Index = StableSpaceIndex;

    type ParseIndexError = ParseSpaceLabelError;

    open spec fn supported_indexes() -> IndexRange {
        supported_stable_indexes()
    }

    open spec fn label_text(&self) -> Option<Seq<char>> {
        match self.label {
            Some(label) => Some(label@),
            None => None,
        }
    }

    open spec fn index_in(label: Seq<char>, dialect: LabelDialect) -> Option<u32> {
        match parsed_label(label, dialect) {
            Ok(number) => Some(number),
            Err(_) => None,
        }
    }

    open spec fn explains(
        label: Seq<char>,
        dialect: LabelDialect,
        error: ParseSpaceLabelError,
    ) -> bool {
        parsed_label(label, dialect) == Err::<u32, SpaceLabelFault>(error@)
    }

    open spec fn number_of(index: StableSpaceIndex) -> u32 {
        index@
    }

    fn index_range() -> (range: IndexRange) {
        IndexRange { start: FIRST_STABLE_INDEX, end: LAST_STABLE_INDEX }
    }

    fn label(&self) -> (label: Option<&str>) {
        match &self.label {
            Some(label) => Some(label.as_str()),
            None => None,
        }
    }

    /// Reads the stable index before the first colon of `label`.
    fn parse_index(label: &str) -> (outcome: Result<StableSpaceIndex, ParseSpaceLabelError>)
        ensures
            outcome matches Err(error) ==> error@.label() == label@,
    {
        Space::parse_label(label, LabelDialect::ColonRequired)
    }

    fn parse_index_in(label: &str, dialect: LabelDialect) -> (outcome: Result<
        StableSpaceIndex,
        ParseSpaceLabelError,
    >)
        ensures
            outcome matches Err(error) ==> error@.label() == label@,
    {
        Space::parse_label(label, dialect)
    }

    fn index_number(index: &StableSpaceIndex) -> (number: u32) {
        index.get()
    }

    fn index_from_number(number: u32) -> (index: Option<StableSpaceIndex>) {
        match StableSpaceIndex::new(number) {
            Ok(index) => Some(index),
            Err(_) => None,
        }
    }
}

/// The label made for a stable index carries that index, in either dialect and with
/// any description.
pub proof fn label_carries_its_index(
    number: u32,
    description: Option<Seq<char>>,
    dialect: LabelDialect,
)
    requires
        supported_stable_indexes().holds(number),
    ensures
        parsed_label(formatted_label(number, description), dialect) == Ok::<u32, SpaceLabelFault>(
            number,
        ),
{
    let digits = decimal_digits(number as nat);
    let label = formatted_label(number, description);
    decimal_digits_denote(number as nat);
    position_of_is_first(label, ':');
    assert(label[digits.len() as int] == ':');
    assert forall|j: int| 0 <= j < digits.len() implies label[j] != ':' by {
        assert(label[j] == digits[j]);
        assert(is_digit(digits[j]));
    }
    assert(position_of(label, ':') == Some(digits.len() as int));
    assert(label.take(digits.len() as int) =~= digits);
}

/// Where a colon is required, a label without one carries no index, whatever else it
/// holds.
pub proof fn colon_is_required(label: Seq<char>)
    requires
        !label.contains(':'),
    ensures
        parsed_label(label, LabelDialect::ColonRequired) == Err::<u32, SpaceLabelFault>(
            SpaceLabelFault::MissingColon { label },
        ),
{
    position_of_is_first(label, ':');
    if position_of(label, ':') is Some {
        assert(label[position_of(label, ':').unwrap()] == ':');
    }
}

/// A numeral of a number beyond the supported range is out of bounds, however many
/// digits it has; it is never read as a smaller number.
pub proof fn number_beyond_range_is_out_of_bounds(label: Seq<char>, dialect: LabelDialect)
    requires
        index_text(label, dialect) is Some,
        is_numeral(index_text(label, dialect).unwrap()),
        numeral_value(index_text(label, dialect).unwrap()) > LAST_STABLE_INDEX,
    ensures
        parsed_label(label, dialect) == Err::<u32, SpaceLabelFault>(
            SpaceLabelFault::ParseStableIndexError {
                label,
                prefix: index_text(label, dialect).unwrap(),
                cause: ParseStableSpaceIndexError::OutOfBounds,
            },
        ),
{
}

/// Whatever keeps a label from being read, the error tells that label, whole.
pub proof fn error_tells_the_label(label: Seq<char>, dialect: LabelDialect)
    ensures
        parsed_label(label, dialect) matches Err(fault) ==> fault.label() == label,
{
}

} // verus!
