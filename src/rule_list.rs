//! The order in which top-level rules may come: `@charset` and `@namespace`
//! first, then everything else.
use vstd::prelude::*;
use crate::error::CustomParseError;

verus! {

/// Where the rule list stands.
#[derive(Clone, Copy, Debug, PartialEq, Eq, Structural)]
pub enum State {
    /// Only `@charset` and `@namespace` rules so far.
    Start,
    /// Some other rule has been seen.
    Body,
}

/// The kind of a top-level rule, as far as ordering goes.
#[derive(Clone, Copy, Debug, PartialEq, Eq, Structural)]
pub enum RuleKind {
    Charset,
    Namespace,
    Other,
}

/// The state after a rule of kind `k`, or the error it causes.
pub open spec fn step(s: State, k: RuleKind) -> Result<State, CustomParseError> {
    match k {
        RuleKind::Charset => Ok(s),
        RuleKind::Namespace => if s == State::Start {
            Ok(State::Start)
        } else {
            Err(CustomParseError::NamespaceRuleAfterOtherRules)
        },
        RuleKind::Other => Ok(State::Body),
    }
}

/// The state after rules of the given kinds, from `Start`, or the first error.
pub open spec fn run(ks: Seq<RuleKind>) -> Result<State, CustomParseError>
    decreases ks.len(),
{
    if ks.len() == 0 {
        Ok(State::Start)
    } else {
        match run(ks.drop_last()) {
            Ok(s) => step(s, ks.last()),
            Err(e) => Err(e),
        }
    }
}

/// The next state after a rule of kind `k`.
pub fn next_state(s: State, k: RuleKind) -> (r: Result<State, CustomParseError>)
    ensures
        r == step(s, k),
{
    match k {
        RuleKind::Charset => Ok(s),
        RuleKind::Namespace => match s {
            State::Start => Ok(State::Start),
            State::Body => Err(CustomParseError::NamespaceRuleAfterOtherRules),
        },
        RuleKind::Other => Ok(State::Body),
    }
}

/// A namespace rule that comes after any rule other than `@charset` and
/// `@namespace` makes the rule list fail.
pub proof fn lemma_namespace_after_other_rule_fails(ks: Seq<RuleKind>, i: int, j: int)
    requires
        0 <= i < j < ks.len(),
        ks[i] == RuleKind::Other,
        ks[j] == RuleKind::Namespace,
    ensures
        run(ks) is Err,
    decreases ks.len(),
{
    if j < ks.len() - 1 {
        lemma_namespace_after_other_rule_fails(ks.drop_last(), i, j);
        assert(run(ks.drop_last()) is Err);
    } else {
        let p = ks.drop_last();
        if run(p) is Ok {
            lemma_body_before(p, i);
        }
    }
}

/// After an `Other` rule, a run that succeeds ends in `Body`.
proof fn lemma_body_before(ks: Seq<RuleKind>, i: int)
    requires
        0 <= i < ks.len(),
        ks[i] == RuleKind::Other,
        run(ks) is Ok,
    ensures
        run(ks) == Ok::<State, CustomParseError>(State::Body),
    decreases ks.len(),
{
    if i < ks.len() - 1 {
        let p = ks.drop_last();
        assert(p[i] == RuleKind::Other);
        lemma_body_before(p, i);
        assert(run(p) == Ok::<State, CustomParseError>(State::Body));
    }
}

/// Namespace rules that come before every other rule (charset rules aside)
/// are accepted.
pub proof fn lemma_leading_namespaces_accepted(ks: Seq<RuleKind>)
    requires
        forall|j: int| 0 <= j < ks.len() ==> (#[trigger] ks[j]) != RuleKind::Other,
    ensures
        run(ks) == Ok::<State, CustomParseError>(State::Start),
    decreases ks.len(),
{
    if ks.len() > 0 {
        lemma_leading_namespaces_accepted(ks.drop_last());
        assert(ks.drop_last().len() == ks.len() - 1);
        assert(ks.last() == ks[ks.len() - 1]);
    }
}

} // verus!
