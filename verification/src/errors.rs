use vstd::prelude::*;
use vstd::string::*;

verus! {

/// The failures that the library reports. They are returned as values.
#[derive(Debug, PartialEq, Eq, Hash)]
pub enum VisualAcuityError {
    GenericError,
    ParseError(String),
    UnknownError(String),
    Unreachable,
    NotImplemented,
    LogMarInvalidSnellenRow(String),
    LogMarInvalidPlusLetters(String),
    DistanceConversionError,
    NoSnellenEquivalent(String),
    PlusLettersNotAllowed,
    NoValue,
    MultipleValues(String),
    VisitMetaError,
    MultipleErrors(Vec<VisualAcuityError>),
    ExtractNumbersError(String),
    ChartNotFound(String),
    ChartRowNotFound(String),
}

/// What a failure is, with texts as sequences of characters.
pub enum ErrorView {
    GenericError,
    ParseError(Seq<char>),
    UnknownError(Seq<char>),
    Unreachable,
    NotImplemented,
    LogMarInvalidSnellenRow(Seq<char>),
    LogMarInvalidPlusLetters(Seq<char>),
    DistanceConversionError,
    NoSnellenEquivalent(Seq<char>),
    PlusLettersNotAllowed,
    NoValue,
    MultipleValues(Seq<char>),
    VisitMetaError,
    MultipleErrors(Seq<ErrorView>),
    ExtractNumbersError(Seq<char>),
    ChartNotFound(Seq<char>),
    ChartRowNotFound(Seq<char>),
}

impl View for VisualAcuityError {
    type V = ErrorView;

    open spec fn view(&self) -> ErrorView
        decreases self,
    {
        match self {
            VisualAcuityError::GenericError => ErrorView::GenericError,
            VisualAcuityError::ParseError(s) => ErrorView::ParseError(s@),
            VisualAcuityError::UnknownError(s) => ErrorView::UnknownError(s@),
            VisualAcuityError::Unreachable => ErrorView::Unreachable,
            VisualAcuityError::NotImplemented => ErrorView::NotImplemented,
            VisualAcuityError::LogMarInvalidSnellenRow(s) => ErrorView::LogMarInvalidSnellenRow(s@),
            VisualAcuityError::LogMarInvalidPlusLetters(s) => ErrorView::LogMarInvalidPlusLetters(
                s@,
            ),
            VisualAcuityError::DistanceConversionError => ErrorView::DistanceConversionError,
            VisualAcuityError::NoSnellenEquivalent(s) => ErrorView::NoSnellenEquivalent(s@),
            VisualAcuityError::PlusLettersNotAllowed => ErrorView::PlusLettersNotAllowed,
            VisualAcuityError::NoValue => ErrorView::NoValue,
            VisualAcuityError::MultipleValues(s) => ErrorView::MultipleValues(s@),
            VisualAcuityError::VisitMetaError => ErrorView::VisitMetaError,
            VisualAcuityError::MultipleErrors(v) => ErrorView::MultipleErrors(
                Seq::new(
                    v@.len(),
                    |i: int|
                        if 0 <= i < v@.len() {
                            v@[i].view()
                        } else {
                            ErrorView::GenericError
                        },
                ),
            ),
            VisualAcuityError::ExtractNumbersError(s) => ErrorView::ExtractNumbersError(s@),
            VisualAcuityError::ChartNotFound(s) => ErrorView::ChartNotFound(s@),
            VisualAcuityError::ChartRowNotFound(s) => ErrorView::ChartRowNotFound(s@),
        }
    }
}

impl ErrorView {
    /// The words that tell of the failure: the text of a parse error
    /// as it is, and else the name of the failure, followed by what it
    /// carries where that is a text.
    pub open spec fn text(self) -> Seq<char> {
        match self {
            ErrorView::ParseError(s) => s,
            ErrorView::GenericError => "GenericError"@,
            ErrorView::Unreachable => "Unreachable"@,
            ErrorView::NotImplemented => "NotImplemented"@,
            ErrorView::DistanceConversionError => "DistanceConversionError"@,
            ErrorView::PlusLettersNotAllowed => "PlusLettersNotAllowed"@,
            ErrorView::NoValue => "NoValue"@,
            ErrorView::VisitMetaError => "VisitMetaError"@,
            ErrorView::UnknownError(s) => "UnknownError: "@ + s,
            ErrorView::LogMarInvalidSnellenRow(s) => "LogMarInvalidSnellenRow: "@ + s,
            ErrorView::LogMarInvalidPlusLetters(s) => "LogMarInvalidPlusLetters: "@ + s,
            ErrorView::NoSnellenEquivalent(s) => "NoSnellenEquivalent: "@ + s,
            ErrorView::MultipleValues(s) => "MultipleValues: "@ + s,
            ErrorView::ExtractNumbersError(s) => "ExtractNumbersError: "@ + s,
            ErrorView::ChartNotFound(s) => "ChartNotFound: "@ + s,
            ErrorView::ChartRowNotFound(s) => "ChartRowNotFound: "@ + s,
            ErrorView::MultipleErrors(_) => "MultipleErrors"@,
        }
    }
}

impl VisualAcuityError {
    /// The words that tell of the failure.
    pub fn to_text(&self) -> (r: String)
        ensures
            r@ == self@.text(),
    {
        match self {
            VisualAcuityError::ParseError(s) => s.clone(),
            VisualAcuityError::GenericError => "GenericError".to_owned(),
            VisualAcuityError::Unreachable => "Unreachable".to_owned(),
            VisualAcuityError::NotImplemented => "NotImplemented".to_owned(),
            VisualAcuityError::DistanceConversionError => "DistanceConversionError".to_owned(),
            VisualAcuityError::PlusLettersNotAllowed => "PlusLettersNotAllowed".to_owned(),
            VisualAcuityError::NoValue => "NoValue".to_owned(),
            VisualAcuityError::VisitMetaError => "VisitMetaError".to_owned(),
            VisualAcuityError::UnknownError(s) => {
                let mut out = "UnknownError: ".to_owned();
                out.append(s.as_str());
                out
            },
            VisualAcuityError::LogMarInvalidSnellenRow(s) => {
                let mut out = "LogMarInvalidSnellenRow: ".to_owned();
                out.append(s.as_str());
                out
            },
            VisualAcuityError::LogMarInvalidPlusLetters(s) => {
                let mut out = "LogMarInvalidPlusLetters: ".to_owned();
                out.append(s.as_str());
                out
            },
            VisualAcuityError::NoSnellenEquivalent(s) => {
                let mut out = "NoSnellenEquivalent: ".to_owned();
                out.append(s.as_str());
                out
            },
            VisualAcuityError::MultipleValues(s) => {
                let mut out = "MultipleValues: ".to_owned();
                out.append(s.as_str());
                out
            },
            VisualAcuityError::ExtractNumbersError(s) => {
                let mut out = "ExtractNumbersError: ".to_owned();
                out.append(s.as_str());
                out
            },
            VisualAcuityError::ChartNotFound(s) => {
                let mut out = "ChartNotFound: ".to_owned();
                out.append(s.as_str());
                out
            },
            VisualAcuityError::ChartRowNotFound(s) => {
                let mut out = "ChartRowNotFound: ".to_owned();
                out.append(s.as_str());
                out
            },
            VisualAcuityError::MultipleErrors(_) => "MultipleErrors".to_owned(),
        }
    }
}

impl Clone for VisualAcuityError {
    fn clone(&self) -> (r: Self)
        ensures
            r@ == self@,
        decreases self,
    {
        match self {
            VisualAcuityError::GenericError => VisualAcuityError::GenericError,
            VisualAcuityError::ParseError(s) => VisualAcuityError::ParseError(s.clone()),
            VisualAcuityError::UnknownError(s) => VisualAcuityError::UnknownError(s.clone()),
            VisualAcuityError::Unreachable => VisualAcuityError::Unreachable,
            VisualAcuityError::NotImplemented => VisualAcuityError::NotImplemented,
            VisualAcuityError::LogMarInvalidSnellenRow(s) => {
                VisualAcuityError::LogMarInvalidSnellenRow(s.clone())
            },
            VisualAcuityError::LogMarInvalidPlusLetters(s) => {
                VisualAcuityError::LogMarInvalidPlusLetters(s.clone())
            },
            VisualAcuityError::DistanceConversionError => VisualAcuityError::DistanceConversionError,
            VisualAcuityError::NoSnellenEquivalent(s) => {
                VisualAcuityError::NoSnellenEquivalent(s.clone())
            },
            VisualAcuityError::PlusLettersNotAllowed => VisualAcuityError::PlusLettersNotAllowed,
            VisualAcuityError::NoValue => VisualAcuityError::NoValue,
            VisualAcuityError::MultipleValues(s) => VisualAcuityError::MultipleValues(s.clone()),
            VisualAcuityError::VisitMetaError => VisualAcuityError::VisitMetaError,
            VisualAcuityError::MultipleErrors(v) => {
                let mut out: Vec<VisualAcuityError> = Vec::new();
                let mut i: usize = 0;
                while i < v.len()
                    invariant
                        *self == VisualAcuityError::MultipleErrors(*v),
                        i <= v.len(),
                        out.len() == i,
                        forall|j: int| 0 <= j < i ==> out@[j]@ == v@[j]@,
                    decreases v.len() - i,
                {
                    proof {
                        assert(decreases_to!(*self => self->MultipleErrors_0));
                    }
                    out.push(v[i].clone());
                    i += 1;
                }
                assert(VisualAcuityError::MultipleErrors(out)@->MultipleErrors_0
                    =~= self@->MultipleErrors_0);
                VisualAcuityError::MultipleErrors(out)
            },
            VisualAcuityError::ExtractNumbersError(s) => {
                VisualAcuityError::ExtractNumbersError(s.clone())
            },
            VisualAcuityError::ChartNotFound(s) => VisualAcuityError::ChartNotFound(s.clone()),
            VisualAcuityError::ChartRowNotFound(s) => VisualAcuityError::ChartRowNotFound(s.clone()),
        }
    }
}

/// A value that may be absent, present, or impossible to compute.
#[derive(PartialEq, Debug)]
pub enum OptionResult<T> {
    Absent,
    Present(T),
    Failed(VisualAcuityError),
}

impl<T> OptionResult<T> {
    /// The outcome of a computation as a value that may also be absent.
    pub fn from_result(value: Result<T, VisualAcuityError>) -> (r: Self)
        ensures
            match value {
                Ok(v) => r == OptionResult::Present(v),
                Err(e) => r == OptionResult::<T>::Failed(e),
            },
    {
        match value {
            Ok(v) => OptionResult::Present(v),
            Err(e) => OptionResult::Failed(e),
        }
    }

    /// An optional value as a value that may also have failed.
    pub fn from_option(value: Option<T>) -> (r: Self)
        ensures
            match value {
                Some(v) => r == OptionResult::Present(v),
                None => r == OptionResult::<T>::Absent,
            },
    {
        match value {
            Some(v) => OptionResult::Present(v),
            None => OptionResult::Absent,
        }
    }

    /// What `f` makes of the value, where there is one.
    pub fn map<M, F: Fn(T) -> M>(self, f: F) -> (r: OptionResult<M>)
        requires
            self matches OptionResult::Present(v) ==> f.requires((v,)),
        ensures
            match self {
                OptionResult::Present(v) => r matches OptionResult::Present(m) && f.ensures((v,), m),
                OptionResult::Absent => r == OptionResult::<M>::Absent,
                OptionResult::Failed(e) => r == OptionResult::<M>::Failed(e),
            },
    {
        match self {
            OptionResult::Present(v) => OptionResult::Present(f(v)),
            OptionResult::Absent => OptionResult::Absent,
            OptionResult::Failed(e) => OptionResult::Failed(e),
        }
    }

    /// What `f` makes of the failure, where there is one.
    pub fn map_err<F: Fn(VisualAcuityError) -> VisualAcuityError>(self, f: F) -> (r: Self)
        requires
            self matches OptionResult::Failed(e) ==> f.requires((e,)),
        ensures
            match self {
                OptionResult::Failed(e) => r matches OptionResult::Failed(m) && f.ensures((e,), m),
                _ => r == self,
            },
    {
        match self {
            OptionResult::Failed(e) => OptionResult::Failed(f(e)),
            other => other,
        }
    }

    /// What `f` gives for the value, where there is one; absence and
    /// failure stay as they are.
    pub fn then<M, F: Fn(T) -> OptionResult<M>>(self, f: F) -> (r: OptionResult<M>)
        requires
            self matches OptionResult::Present(v) ==> f.requires((v,)),
        ensures
            match self {
                OptionResult::Present(v) => f.ensures((v,), r),
                OptionResult::Absent => r == OptionResult::<M>::Absent,
                OptionResult::Failed(e) => r == OptionResult::<M>::Failed(e),
            },
    {
        match self {
            OptionResult::Present(v) => f(v),
            OptionResult::Absent => OptionResult::Absent,
            OptionResult::Failed(e) => OptionResult::Failed(e),
        }
    }
}

impl<T: Clone> Clone for OptionResult<T> {
    fn clone(&self) -> (r: Self)
        ensures
            match *self {
                OptionResult::Present(v) => r matches OptionResult::Present(w) && cloned::<T>(v, w),
                OptionResult::Absent => r is Absent,
                OptionResult::Failed(e) => r matches OptionResult::Failed(f) && f@ == e@,
            },
    {
        match self {
            OptionResult::Present(v) => OptionResult::Present(v.clone()),
            OptionResult::Absent => OptionResult::Absent,
            OptionResult::Failed(e) => OptionResult::Failed(e.clone()),
        }
    }
}

impl<T> OptionResult<T> {
    /// Whether two values are the same, failures compared by what
    /// they say.
    pub open spec fn same(self, other: Self) -> bool {
        match (self, other) {
            (OptionResult::Present(a), OptionResult::Present(b)) => a == b,
            (OptionResult::Absent, OptionResult::Absent) => true,
            (OptionResult::Failed(a), OptionResult::Failed(b)) => a@ == b@,
            _ => false,
        }
    }
}

impl<T> Default for OptionResult<T> {
    fn default() -> (r: Self)
        ensures
            r == OptionResult::<T>::Absent,
    {
        OptionResult::Absent
    }
}

} // verus!
