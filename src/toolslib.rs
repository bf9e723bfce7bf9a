use vstd::prelude::*;

verus! {

/// Exit codes of the tools.
#[derive(Clone, Copy, Debug, PartialEq, Eq, Structural)]
pub enum Rc {
    /// Invalid file path error
    ErrorInvalidIinputFilePath,
    /// The file can not be open for reading
    ErrorCannotOpenFileForReading,
    /// Error writing to standard output
    ErrorWriteToStdout,
}

impl Rc {
    /// The process exit status for this code.
    pub fn code(&self) -> (r: i32)
        ensures
            *self == Rc::ErrorInvalidIinputFilePath ==> r == 1,
            *self == Rc::ErrorCannotOpenFileForReading ==> r == 2,
            *self == Rc::ErrorWriteToStdout ==> r == 3,
    {
        match self {
            Rc::ErrorInvalidIinputFilePath => 1,
            Rc::ErrorCannotOpenFileForReading => 2,
            Rc::ErrorWriteToStdout => 3,
        }
    }
}

/// Errors of argument handling and pattern compilation.
#[derive(Clone, Copy, Debug, PartialEq, Eq, Structural)]
pub enum ErrCode {
    /// An argument could not be read.
    ErrorArgumentParsing,
    /// The search pattern is not a valid regular expression.
    InvalidRegularExpression,
}

impl ErrCode {
    /// The process exit status for this error, after those of `Rc`.
    pub fn code(&self) -> (r: i32)
        ensures
            *self == ErrCode::ErrorArgumentParsing ==> r == 4,
            *self == ErrCode::InvalidRegularExpression ==> r == 5,
    {
        match self {
            ErrCode::ErrorArgumentParsing => 4,
            ErrCode::InvalidRegularExpression => 5,
        }
    }
}

/// The inputs whose entry in `present` is set, in order.
pub open spec fn existing_inputs(inputs: Seq<Seq<char>>, present: Seq<bool>) -> Seq<Seq<char>>
    decreases inputs.len(),
{
    if inputs.len() == 0 {
        Seq::empty()
    } else {
        let prev = existing_inputs(inputs.drop_last(), present);
        if present[inputs.len() - 1] {
            prev.push(inputs.last())
        } else {
            prev
        }
    }
}

/// Keeps the inputs that name an existing path (`present[i]` for
/// `inputs[i]`). A missing path is an error unless errors are ignored, in
/// which case it is left out.
pub fn select_existing_paths(inputs: &Vec<String>, present: &Vec<bool>, ignore_errors: bool) -> (r:
    Result<Vec<String>, Rc>)
    requires
        present@.len() == inputs@.len(),
    ensures
        r is Err <==> !ignore_errors && exists|i: int| 0 <= i < present@.len() && !present@[i],
        r is Err ==> r->Err_0 == Rc::ErrorInvalidIinputFilePath,
        r is Ok ==> r->Ok_0@.map_values(|s: String| s@) == existing_inputs(
            inputs@.map_values(|s: String| s@),
            present@,
        ),
{
    let ghost names = inputs@.map_values(|s: String| s@);
    let mut kept: Vec<String> = Vec::new();
    let mut i: usize = 0;
    while i < inputs.len()
        invariant
            i <= inputs.len(),
            present@.len() == inputs@.len(),
            names == inputs@.map_values(|s: String| s@),
            !ignore_errors ==> forall|j: int| 0 <= j < i ==> present@[j],
            kept@.map_values(|s: String| s@) == existing_inputs(names.take(i as int), present@),
        decreases inputs.len() - i,
    {
        proof {
            assert(names.take(i + 1).drop_last() =~= names.take(i as int));
        }
        if present[i] {
            kept.push(inputs[i].clone());
        } else if !ignore_errors {
            return Err(Rc::ErrorInvalidIinputFilePath);
        }
        i = i + 1;
        proof {
            assert(kept@.map_values(|s: String| s@) =~= existing_inputs(names.take(i as int), present@));
        }
    }
    assert(names.take(i as int) =~= names);
    Ok(kept)
}

} // verus!
