use vstd::prelude::*;
use vstd::string::StringExecFns;

verus! {

/// A failure raised by the guarded part of a [`TryCatch`], with the kind of failure and a message
/// for the user.
#[derive(Debug, Clone, PartialEq, Eq)]
pub struct Exception {
    pub kind: &'static str,
    pub message: String,
}

impl Exception {
    /// The text shown for this exception: the kind, the word "Exception", then the message.
    pub open spec fn text(&self) -> Seq<char> {
        self.kind@ + " Exception: "@ + self.message@
    }

    /// Renders the exception as it is shown to the user.
    pub fn to_string(&self) -> (out: String)
        ensures
            out@ == self.text(),
    {
        self.kind.to_owned().concat(" Exception: ").concat(self.message.as_str())
    }
}

/// A guarded computation and what is done about its failure.
pub struct TryCatch<F, G> {
    pub attempt: F,
    pub catch: G,
}

impl<F, G> TryCatch<F, G> {
    /// Pairs a guarded computation with the handler of its failure.
    pub fn new(attempt: F, catch: G) -> (guarded: Self)
        ensures
            guarded.attempt == attempt,
            guarded.catch == catch,
    {
        TryCatch { attempt, catch }
    }

    /// Runs the guarded computation. Its success is the success of the whole, whatever it
    /// gives; its failure is handed to the handler, whose result is then the result of the
    /// whole.
    pub fn do_try<Tee>(self) -> (outcome: Result<(), Exception>) where
        F: Fn() -> Result<Tee, Exception>,
        G: Fn(Exception) -> Result<(), Exception>,

        requires
            self.attempt.requires(()),
            forall|raised: Exception|
                self.attempt.ensures((), Err::<Tee, Exception>(raised)) ==> self.catch.requires(
                    (raised,),
                ),
        ensures
            outcome == Ok::<(), Exception>(()) && (exists|given: Tee|
                self.attempt.ensures((), Ok::<Tee, Exception>(given))) || exists|raised: Exception|
                self.attempt.ensures((), Err::<Tee, Exception>(raised)) && self.catch.ensures(
                    (raised,),
                    outcome,
                ),
    {
        match (self.attempt)() {
            Ok(_) => Ok(()),
            Err(raised) => (self.catch)(raised),
        }
    }
}

} // verus!
