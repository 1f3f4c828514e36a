//! What can go wrong, and the exit code that it comes to.

use vstd::prelude::*;

verus! {

/// What there is to say of an error.
#[derive(Debug)]
pub struct ErrorText {
    /// What went wrong.
    pub inner: String,
    /// The error as it is shown, with what kind of error it is.
    pub shown: String,
}

/// An error of the repository and what stands below it. Each kind carries what
/// there is to say of it.
#[derive(Debug)]
pub enum MapacheError {
    /// The credentials were refused.
    Auth(ErrorText),
    /// The repository could not do what was asked.
    Repo(ErrorText),
    /// A value could not be written down.
    Serialization(ErrorText),
    /// A background task gave up.
    TaskPanicked(ErrorText),
    /// Anything else.
    Other(ErrorText),
}

impl ErrorText {
    /// Whether nothing but a text is said of an error, however it is asked for.
    pub open spec fn says(self, s: Seq<char>) -> bool {
        self.inner@ == s && self.shown@ == s
    }

    /// An error of which nothing but a text is said.
    pub fn plain(s: String) -> (r: ErrorText)
        ensures
            r.says(s@),
    {
        ErrorText { inner: s.clone(), shown: s }
    }
}

impl MapacheError {
    /// What there is to say of the error.
    pub open spec fn text(self) -> ErrorText {
        match self {
            MapacheError::Auth(t) => t,
            MapacheError::Repo(t) => t,
            MapacheError::Serialization(t) => t,
            MapacheError::TaskPanicked(t) => t,
            MapacheError::Other(t) => t,
        }
    }

    /// What went wrong.
    pub open spec fn said(self) -> Seq<char> {
        self.text().inner@
    }

    /// The error as it is shown.
    pub open spec fn displayed(self) -> Seq<char> {
        self.text().shown@
    }

    /// What there is to say of the error.
    fn texts(&self) -> (r: &ErrorText)
        ensures
            *r == self.text(),
    {
        match self {
            MapacheError::Auth(t) => t,
            MapacheError::Repo(t) => t,
            MapacheError::Serialization(t) => t,
            MapacheError::TaskPanicked(t) => t,
            MapacheError::Other(t) => t,
        }
    }

    /// What went wrong.
    pub fn inner(&self) -> (r: String)
        ensures
            r@ == self.said(),
    {
        self.texts().inner.clone()
    }

    /// The error as it is shown.
    pub fn shown(&self) -> (r: String)
        ensures
            r@ == self.displayed(),
    {
        self.texts().shown.clone()
    }

    /// Whether other credentials may help.
    pub fn is_auth(&self) -> (r: bool)
        ensures
            r == (self is Auth),
    {
        match self {
            MapacheError::Auth(_) => true,
            _ => false,
        }
    }
}

/// An error that ends the program.
pub trait ToExitCode {
    /// The exit code that stands for the error.
    spec fn exit_code(&self) -> i32;

    /// What is printed of the error.
    spec fn message(&self) -> Seq<char>;

    /// The exit code that stands for the error. It is never that of success.
    fn to_exit_code(&self) -> (r: i32)
        ensures
            r == self.exit_code(),
            r != 0,
    ;

    /// What is printed of the error.
    fn to_text(&self) -> (r: String)
        ensures
            r@ == self.message(),
    ;
}

/// An error of a command whose rules stand elsewhere.
#[derive(Debug)]
pub struct OtherError {
    /// The exit code that the command asks for.
    pub code: i32,
    /// What is printed of the error.
    pub message: String,
}

impl ToExitCode for OtherError {
    /// The code that the command asks for. That of success would hide the error, and
    /// counts as 1.
    open spec fn exit_code(&self) -> i32 {
        if self.code == 0 {
            1
        } else {
            self.code
        }
    }

    open spec fn message(&self) -> Seq<char> {
        self.message@
    }

    fn to_exit_code(&self) -> i32 {
        if self.code == 0 {
            1
        } else {
            self.code
        }
    }

    fn to_text(&self) -> String {
        self.message.clone()
    }
}

/// What a command that has ended hands back to the shell: 0 where it did its
/// work, else the exit code of its error, with what is to be printed.
pub fn outcome<E: ToExitCode>(result: &Result<(), E>) -> (r: (i32, Option<String>))
    ensures
        match result {
            Ok(_) => r.0 == 0 && r.1 is None,
            Err(e) => r.0 == e.exit_code() && r.0 != 0 && (r.1 matches Some(m) && m@ == e.message()),
        },
{
    match result {
        Ok(_) => (0, None),
        Err(e) => (e.to_exit_code(), Some(e.to_text())),
    }
}

/// The first error of a list of results, if there is one.
pub open spec fn first_error<E>(results: Seq<Result<(), E>>) -> Result<(), E>
    decreases results.len(),
{
    if results.len() == 0 {
        Ok(())
    } else {
        match results[0] {
            Err(e) => Err(e),
            Ok(_) => first_error(results.skip(1)),
        }
    }
}

/// Goes through the results of a list of tasks: all is well, or else the first
/// error among them is what the whole comes to.
pub fn all_done<E>(results: Vec<Result<(), E>>) -> (r: Result<(), E>)
    ensures
        r == first_error(results@),
{
    for r in it: results
        invariant
            it.seq() == results@,
            forall|j: int| 0 <= j < it.index() ==> (#[trigger] results@[j]) is Ok,
    {
        match r {
            Ok(_) => {},
            Err(e) => {
                proof {
                    lemma_first_error(results@, it.index());
                }
                return Err(e);
            },
        }
    }
    proof {
        law_all_done_or_some_error(results@);
        assert(first_error(results@)->Ok_0 == ());
    }
    Ok(())
}

proof fn lemma_first_error<E>(results: Seq<Result<(), E>>, i: int)
    requires
        0 <= i < results.len(),
        results[i] is Err,
        forall|j: int| 0 <= j < i ==> (#[trigger] results[j]) is Ok,
    ensures
        first_error(results) == results[i],
    decreases i,
{
    if i > 0 {
        assert(results[0] is Ok);
        let rest = results.skip(1);
        assert forall|j: int| 0 <= j < i - 1 implies (#[trigger] rest[j]) is Ok by {
            assert(results[j + 1] is Ok);
        }
        lemma_first_error(rest, i - 1);
    }
}

/// All is well exactly where nothing in the list went wrong.
pub proof fn law_all_done_or_some_error<E>(results: Seq<Result<(), E>>)
    ensures
        first_error(results) is Ok <==> forall|i: int| 0 <= i < results.len() ==> (#[trigger] results[i]) is Ok,
        first_error(results) is Err ==> exists|i: int|
            #![trigger results[i]]
            0 <= i < results.len() && results[i] == first_error(results) && forall|j: int|
                0 <= j < i ==> (#[trigger] results[j]) is Ok,
    decreases results.len(),
{
    if results.len() > 0 && results[0] is Ok {
        let rest = results.skip(1);
        law_all_done_or_some_error(rest);
        if first_error(rest) is Ok {
            assert forall|i: int| 0 <= i < results.len() implies (#[trigger] results[i]) is Ok by {
                if i > 0 {
                    assert(rest[i - 1] is Ok);
                }
            }
        } else {
            let k = choose|k: int|
                #![trigger rest[k]]
                0 <= k < rest.len() && rest[k] == first_error(rest) && forall|j: int|
                    0 <= j < k ==> (#[trigger] rest[j]) is Ok;
            assert(results[k + 1] == first_error(results));
            assert forall|j: int| 0 <= j < k + 1 implies (#[trigger] results[j]) is Ok by {
                if j > 0 {
                    assert(rest[j - 1] is Ok);
                }
            }
        }
    }
}

/// Whatever kind an error is of, it says what it carries: what went wrong where that is
/// asked for, and what is shown of it where that is.
pub proof fn law_an_error_says_what_it_carries(t: ErrorText, s: Seq<char>)
    ensures
        MapacheError::Auth(t).said() == t.inner@ && MapacheError::Auth(t).displayed() == t.shown@,
        MapacheError::Repo(t).said() == t.inner@ && MapacheError::Repo(t).displayed() == t.shown@,
        MapacheError::Serialization(t).said() == t.inner@ && MapacheError::Serialization(t).displayed() == t.shown@,
        MapacheError::TaskPanicked(t).said() == t.inner@ && MapacheError::TaskPanicked(t).displayed() == t.shown@,
        MapacheError::Other(t).said() == t.inner@ && MapacheError::Other(t).displayed() == t.shown@,
        t.says(s) <==> t.inner@ == s && t.shown@ == s,
{
}

/// An error of a command whose rules stand elsewhere keeps its exit code and its text,
/// but never ends the program as if all were well.
pub proof fn law_no_error_counts_as_success(e: OtherError)
    ensures
        e.exit_code() != 0,
        e.code != 0 ==> e.exit_code() == e.code,
        e.code == 0 ==> e.exit_code() == 1,
        ToExitCode::message(&e) == e.message@,
{
}

} // verus!
