use vstd::prelude::*;

verus! {

/// The single terminal result of a run.
#[derive(Debug, PartialEq, Eq)]
pub enum Outcome {
    /// The program ran to completion and reported success.
    Success(String),
    /// The program reported failure itself; its message is passed on as is.
    DeclaredError(String),
    /// The program never reached a result, or its host failed.
    ExecutionFault(String),
}

impl Outcome {
    pub open spec fn is_error(&self) -> bool {
        !(self is Success)
    }

    pub fn duplicate(&self) -> (r: Outcome)
        ensures
            r == *self,
    {
        match self {
            Outcome::Success(s) => Outcome::Success(s.clone()),
            Outcome::DeclaredError(s) => Outcome::DeclaredError(s.clone()),
            Outcome::ExecutionFault(s) => Outcome::ExecutionFault(s.clone()),
        }
    }
}

/// Folds what the host reported into the run's outcome: the program's own
/// result when it produced one (`Ok`), and a fault otherwise (`Err`).
pub fn fold_outcome(reported: Result<Result<String, String>, String>) -> (r: Outcome)
    ensures
        r == match reported {
            Ok(Ok(s)) => Outcome::Success(s),
            Ok(Err(e)) => Outcome::DeclaredError(e),
            Err(f) => Outcome::ExecutionFault(f),
        },
{
    match reported {
        Ok(Ok(s)) => Outcome::Success(s),
        Ok(Err(e)) => Outcome::DeclaredError(e),
        Err(f) => Outcome::ExecutionFault(f),
    }
}

/// Refusal of a second terminal write.
#[derive(Debug, Clone, Copy, PartialEq, Eq, Structural)]
pub enum SlotError {
    AlreadyCompleted,
}

/// Holds a run's outcome: empty while the run is going, then written once
/// and read any number of times.
pub struct OutcomeSlot {
    value: Option<Outcome>,
}

impl View for OutcomeSlot {
    type V = Option<Outcome>;

    closed spec fn view(&self) -> Option<Outcome> {
        self.value
    }
}

/// The slot's contents after each write attempt of `attempts`, in order.
pub open spec fn after_attempts(start: Option<Outcome>, attempts: Seq<Outcome>) -> Option<Outcome> {
    attempts.fold_left(
        start,
        |v: Option<Outcome>, o: Outcome|
            if v is Some {
                v
            } else {
                Some(o)
            },
    )
}

impl OutcomeSlot {
    pub fn new() -> (r: Self)
        ensures
            r@ == None::<Outcome>,
    {
        OutcomeSlot { value: None }
    }

    /// Writes the outcome if none is there yet. A second write is a logic
    /// error: it is refused and the first outcome stays.
    pub fn complete(&mut self, outcome: Outcome) -> (r: Result<(), SlotError>)
        ensures
            old(self)@ is None <==> r is Ok,
            r is Ok ==> final(self)@ == Some(outcome),
            r matches Err(e) ==> e == SlotError::AlreadyCompleted && final(self)@ == old(self)@,
    {
        if self.value.is_some() {
            return Err(SlotError::AlreadyCompleted);
        }
        self.value = Some(outcome);
        Ok(())
    }

    pub fn is_completed(&self) -> (r: bool)
        ensures
            r == self@ is Some,
    {
        self.value.is_some()
    }

    /// The outcome, once there is one; every reader gets the same value.
    pub fn get(&self) -> (r: Option<&Outcome>)
        ensures
            r matches Some(o) ==> self@ == Some(*o),
            r is None <==> self@ is None,
    {
        self.value.as_ref()
    }
}

/// Once an outcome is written, no later write attempt changes it, however
/// many there are: every reader, before or after those attempts, sees the
/// same value. From an empty slot, the first attempt is the one that stays.
pub proof fn lemma_first_write_wins(start: Option<Outcome>, attempts: Seq<Outcome>)
    ensures
        start is Some ==> after_attempts(start, attempts) == start,
        start is None && attempts.len() > 0 ==> after_attempts(start, attempts) == Some(attempts[0]),
        start is None && attempts.len() == 0 ==> after_attempts(start, attempts) is None,
    decreases attempts.len(),
{
    if attempts.len() > 0 {
        lemma_first_write_wins(start, attempts.drop_last());
        if start is None && attempts.len() > 1 {
            assert(attempts.drop_last()[0] == attempts[0]);
        }
    }
}

} // verus!
