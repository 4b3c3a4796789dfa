use vstd::prelude::*;

verus! {

/// A closed interval of index numbers: both ends belong to it.
#[derive(Debug, Clone, Copy, PartialEq, Eq, Structural)]
pub struct IndexRange {
    pub start: u32,
    pub end: u32,
}

impl IndexRange {
    /// `number` lies in the interval.
    pub open spec fn holds(self, number: u32) -> bool {
        self.start <= number <= self.end
    }

    pub fn contains(&self, number: u32) -> (inside: bool)
        ensures
            inside == self.holds(number),
    {
        self.start <= number && number <= self.end
    }
}

/// Which labels are read as carrying an index.
#[derive(Debug, Clone, Copy, PartialEq, Eq, Structural)]
pub enum LabelDialect {
    /// The index is what stands before the first colon; a label without a colon
    /// carries none.
    ColonRequired,
    /// As `ColonRequired`, but a label without a colon is read as an index as a whole.
    ColonOptional,
}

/// An entity that may carry a text label, in which an index is written.
///
/// Each executable method comes with a model that says what it returns.  The models
/// have bodies so that an implementation need not state them; one that is to be
/// reasoned about overrides them.
pub trait Labelable: Sized {
    type Index;

    type ParseIndexError;

    /// The index numbers that may be issued to entities of this kind.
    open spec fn supported_indexes() -> IndexRange {
        arbitrary()
    }

    /// The label of the entity, if it has one.
    open spec fn label_text(&self) -> Option<Seq<char>> {
        arbitrary()
    }

    /// The number of the index written in `label`, if the dialect finds one written
    /// in it.
    open spec fn index_in(label: Seq<char>, dialect: LabelDialect) -> Option<u32> {
        arbitrary()
    }

    /// `error` says why the dialect finds no index written in `label`.
    open spec fn explains(
        label: Seq<char>,
        dialect: LabelDialect,
        error: Self::ParseIndexError,
    ) -> bool {
        arbitrary()
    }

    /// The number that `index` stands for.
    open spec fn number_of(index: Self::Index) -> u32 {
        arbitrary()
    }

    fn index_range() -> (range: IndexRange)
        ensures
            range == Self::supported_indexes(),
    ;

    fn label(&self) -> (label: Option<&str>)
        ensures
            match label {
                Some(text) => self.label_text() == Some(text@),
                None => self.label_text() is None,
            },
    ;

    /// Reads the index written in `label`, where a colon is required.
    fn parse_index(label: &str) -> (outcome: Result<Self::Index, Self::ParseIndexError>)
        ensures
            match outcome {
                Ok(index) => Self::index_in(label@, LabelDialect::ColonRequired) == Some(
                    Self::number_of(index),
                ),
                Err(error) => Self::index_in(label@, LabelDialect::ColonRequired) is None
                    && Self::explains(label@, LabelDialect::ColonRequired, error),
            },
    ;

    /// Reads the index written in `label`, as `dialect` has it.
    fn parse_index_in(label: &str, dialect: LabelDialect) -> (outcome: Result<
        Self::Index,
        Self::ParseIndexError,
    >)
        ensures
            match outcome {
                Ok(index) => Self::index_in(label@, dialect) == Some(Self::number_of(index)),
                Err(error) => Self::index_in(label@, dialect) is None && Self::explains(
                    label@,
                    dialect,
                    error,
                ),
            },
    ;

    fn index_number(index: &Self::Index) -> (number: u32)
        ensures
            number == Self::number_of(*index),
    ;

    /// The index that stands for `number`; every supported number has one.
    fn index_from_number(number: u32) -> (index: Option<Self::Index>)
        ensures
            Self::supported_indexes().holds(number) ==> index is Some,
            index matches Some(i) ==> Self::number_of(i) == number,
    ;
}

} // verus!
