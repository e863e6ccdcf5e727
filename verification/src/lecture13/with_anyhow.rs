//! Errors that carry only a message, with context added on the way up.

use vstd::prelude::*;

verus! {

#[verifier::external_type_specification]
#[verifier::external_body]
pub struct ExAnyhowError(anyhow::Error);

/// `anyhow::Error::msg`: an error whose message is `message`. The error is
/// opaque, so nothing is claimed of it.
#[verifier::external_body]
fn error_with_message(message: String) -> anyhow::Error {
    anyhow::Error::msg(message)
}

/// `anyhow::Error::context`: the error with `context` as its new message,
/// `error` becoming its cause. The error is opaque, so nothing is claimed of it.
#[verifier::external_body]
fn add_context(error: anyhow::Error, context: String) -> anyhow::Error {
    error.context(context)
}

/// The messages of a chain of errors, as text.
pub open spec fn messages(chain: Seq<String>) -> Seq<Seq<char>> {
    chain.map_values(|m: String| m@)
}

/// An error that carries only text: its own message first, then the
/// messages of the errors that caused it, the root cause last.
#[derive(Debug)]
pub struct Failure {
    pub chain: Vec<String>,
}

impl Failure {
    /// The messages of the chain, outermost first.
    pub open spec fn chain_text(&self) -> Seq<Seq<char>> {
        messages(self.chain@)
    }

    /// An error with the given message and no cause.
    pub fn msg(message: &str) -> (r: Failure)
        ensures
            r.chain_text() == seq![message@],
    {
        let mut chain: Vec<String> = Vec::new();
        chain.push(String::from_str(message));
        assert(messages(chain@) =~= seq![message@]);
        Failure { chain }
    }

    /// The error with `context` as its message, caused by what it was.
    pub fn context(self, context: String) -> (r: Failure)
        ensures
            r.chain_text() == seq![context@] + self.chain_text(),
    {
        let ghost before = self.chain_text();
        let mut chain = self.chain;
        let ghost text = context@;
        chain.insert(0, context);
        assert(messages(chain@) =~= seq![text] + before);
        Failure { chain }
    }

    /// The error as an `anyhow::Error`: an error made of the root cause's
    /// message, then each message further out added as context, so that the
    /// outermost message is what it says and the chain runs as `chain` does.
    /// An empty chain gives an error with an empty message.
    pub fn into_anyhow(self) -> anyhow::Error {
        let mut chain = self.chain;
        let mut error = match chain.pop() {
            Some(root) => error_with_message(root),
            None => error_with_message(String::new()),
        };
        while chain.len() > 0
            decreases chain.len(),
        {
            match chain.pop() {
                Some(message) => {
                    error = add_context(error, message);
                },
                None => {},
            }
        }
        error
    }

    /// What the error says: its own message, or nothing for an empty chain.
    pub fn message(&self) -> (r: String)
        ensures
            r@ == if self.chain_text().len() > 0 {
                self.chain_text()[0]
            } else {
                Seq::<char>::empty()
            },
    {
        if self.chain.len() > 0 {
            self.chain[0].clone()
        } else {
            String::new()
        }
    }
}

/// Succeeds when `flag` is set; otherwise fails with the message `Fuck!`.
pub fn might_fail_anyhow(flag: bool) -> (r: Result<(), Failure>)
    ensures
        match r {
            Ok(()) => flag,
            Err(f) => !flag && f.chain_text() == seq!["Fuck!"@],
        },
{
    if flag {
        Ok(())
    } else {
        Err(Failure::msg("Fuck!"))
    }
}

/// Fails, as a check that does not hold, with the message `bad :(`.
pub fn ensure_ex() -> (r: Result<(), Failure>)
    ensures
        r matches Err(f) && f.chain_text() == seq!["bad :("@],
{
    Err(Failure::msg("bad :("))
}

/// Fails with the message `task one failed!`.
pub fn task_one() -> (r: Result<(), Failure>)
    ensures
        r matches Err(f) && f.chain_text() == seq!["task one failed!"@],
{
    Err(Failure::msg("task one failed!"))
}

/// Runs the first task and, as it fails, adds that the second task failed
/// because of it.
pub fn task_two() -> (r: Result<(), Failure>)
    ensures
        r matches Err(f) && f.chain_text() == seq![
            "task two failed with executing task one"@,
            "task one failed!"@,
        ],
{
    match task_one() {
        Ok(()) => Ok(()),
        Err(f) => Err(f.context(String::from_str("task two failed with executing task one"))),
    }
}

} // verus!
