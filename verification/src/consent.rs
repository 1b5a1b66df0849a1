//! The consent of a policy to a call of a tool, and tools that are called only
//! with it.
use vstd::prelude::*;

use crate::agent::{ApprovalDecision, ApprovalPolicy};
use crate::data::{Data, DataView};
use crate::tool::{found, tool_result, Tool, ToolError, ToolRegistry};

verus! {

/// The consent of a policy to one call of a tool. Only [`ask`] gives one, where
/// the policy allowed the call, and the call uses it up.
pub struct Consent<P: ApprovalPolicy> {
    tool_name: String,
    arguments: Data,
    asked: Ghost<P>,
    decided: Ghost<P>,
}

impl<P: ApprovalPolicy> Consent<P> {
    #[verifier::type_invariant]
    spec fn was_given(self) -> bool {
        self.asked@.decides(
            self.tool_name@,
            self.arguments@,
            ApprovalDecision::Allow,
            self.decided@,
        )
    }

    /// The name of the tool that may be called.
    pub closed spec fn to_call(self) -> Seq<char> {
        self.tool_name@
    }

    /// The arguments that it may be called with.
    pub closed spec fn with(self) -> DataView {
        self.arguments@
    }

    /// The policy that was asked, as it was before it decided.
    pub closed spec fn asked(self) -> P {
        self.asked@
    }

    /// The policy that was asked, as it was when it had decided.
    pub closed spec fn decided(self) -> P {
        self.decided@
    }

    /// Use up the consent for the call that it is for. The policy has allowed
    /// that call.
    pub fn into_call(self) -> (r: (String, Data))
        ensures
            r.0@ == self.to_call(),
            r.1@ == self.with(),
            self.asked().decides(
                self.to_call(),
                self.with(),
                ApprovalDecision::Allow,
                self.decided(),
            ),
    {
        proof {
            use_type_invariant(&self);
        }
        (self.tool_name, self.arguments)
    }
}

/// Ask a policy for its consent to a call: once, and about that call. There is
/// a consent exactly where the policy allowed the call.
pub fn ask<P: ApprovalPolicy>(policy: &mut P, tool_name: String, arguments: Data) -> (r: Option<
    Consent<P>,
>)
    ensures
        match r {
            Some(consent) => {
                &&& consent.to_call() == tool_name@
                &&& consent.with() == arguments@
                &&& consent.asked() == *old(policy)
                &&& consent.decided() == *final(policy)
                &&& old(policy).decides(
                    tool_name@,
                    arguments@,
                    ApprovalDecision::Allow,
                    *final(policy),
                )
            },
            None => old(policy).decides(
                tool_name@,
                arguments@,
                ApprovalDecision::Deny,
                *final(policy),
            ),
        },
{
    let ghost before = *policy;
    match policy.approve(tool_name.as_str(), &arguments) {
        ApprovalDecision::Allow => {
            let ghost after = *policy;
            Some(Consent { tool_name, arguments, asked: Ghost(before), decided: Ghost(after) })
        },
        ApprovalDecision::Deny => None,
    }
}

/// Tools that can be called in a run under a policy of type `P`: each call takes
/// a consent of such a policy, and there is no other way to them.
pub trait Toolbox<P: ApprovalPolicy>: Sized {
    /// What the tools are.
    type Item: Tool;

    /// The tools.
    spec fn tools(&self) -> Seq<Self::Item>;

    /// Whether there is a tool with a name.
    fn holds(&self, name: &str) -> (r: bool)
        ensures
            r == (found(self.tools(), name@) is Some),
    ;

    /// Make the call that the consent is for.
    fn call(&self, consent: Consent<P>) -> (r: Result<String, ToolError>)
        requires
            found(self.tools(), consent.to_call()) is Some,
        ensures
            found(self.tools(), consent.to_call())->Some_0.gives(consent.with(), tool_result(r)),
    ;
}

impl<T: Tool, P: ApprovalPolicy> Toolbox<P> for ToolRegistry<T> {
    type Item = T;

    open spec fn tools(&self) -> Seq<T> {
        self@
    }

    fn holds(&self, name: &str) -> (r: bool) {
        self.get(name).is_some()
    }

    fn call(&self, consent: Consent<P>) -> (r: Result<String, ToolError>) {
        let (tool_name, arguments) = consent.into_call();
        self.get(tool_name.as_str()).unwrap().invoke(&arguments)
    }
}

} // verus!
