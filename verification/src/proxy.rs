//! Waiting for the proxy that was started in the background.
use crate::config::ClaudexConfig;
use crate::text::{decimal, decimal_text};
use vstd::prelude::*;

verus! {

/// How many times the proxy is asked before it counts as failed.
pub const POLL_LIMIT: u32 = 20;

/// How long to wait before each time, in milliseconds.
pub const POLL_DELAY_MILLIS: u64 = 100;

/// The address at which a proxy tells that it is ready.
pub open spec fn health_address(host: Seq<char>, port: u16) -> Seq<char> {
    "http://"@ + host + ":"@ + decimal(port as nat) + "/health"@
}

/// A wait for a proxy that has not answered yet.
pub struct ProxyWait {
    health_url: String,
    polls: u32,
}

/// What a [`ProxyWait`] says.
pub struct ProxyWaitView {
    /// The address to ask.
    pub health_url: Seq<char>,
    /// How many times it was asked in vain.
    pub polls: nat,
}

impl View for ProxyWait {
    type V = ProxyWaitView;

    closed spec fn view(&self) -> ProxyWaitView {
        ProxyWaitView { health_url: self.health_url@, polls: self.polls as nat }
    }
}

/// What to do once the proxy was asked.
pub enum ProxyStep {
    /// The proxy is ready.
    Ready,
    /// Wait and ask again.
    Again(ProxyWait),
    /// Give up, with this message.
    Failed(String),
}

/// What a [`ProxyStep`] says.
pub enum ProxyStepView {
    Ready,
    Again(ProxyWaitView),
    Failed(Seq<char>),
}

impl View for ProxyStep {
    type V = ProxyStepView;

    open spec fn view(&self) -> ProxyStepView {
        match self {
            ProxyStep::Ready => ProxyStepView::Ready,
            ProxyStep::Again(wait) => ProxyStepView::Again(wait@),
            ProxyStep::Failed(text) => ProxyStepView::Failed(text@),
        }
    }
}

/// The step after the proxy was asked: any answer will do, and silence is borne until the limit.
pub open spec fn step_after_poll(wait: ProxyWaitView, answered: bool) -> ProxyStepView {
    if answered {
        ProxyStepView::Ready
    } else if wait.polls + 1 < POLL_LIMIT {
        ProxyStepView::Again(ProxyWaitView { polls: wait.polls + 1, ..wait })
    } else {
        ProxyStepView::Failed("proxy failed to start within 2 seconds"@)
    }
}

/// Begins to wait for the proxy that was started for a configuration.
pub fn start_proxy_background(config: &ClaudexConfig) -> (wait: ProxyWait)
    ensures
        wait@ == (ProxyWaitView {
            health_url: health_address(config@.proxy_host, config@.proxy_port),
            polls: 0,
        }),
{
    let mut health_url: String = "http://".to_owned();
    health_url.append(config.proxy_host.as_str());
    health_url.append(":");
    health_url.append(decimal_text(config.proxy_port as u128).as_str());
    health_url.append("/health");
    ProxyWait { health_url, polls: 0 }
}

impl ProxyWait {
    #[verifier::type_invariant]
    spec fn well_formed(self) -> bool {
        self.polls < POLL_LIMIT
    }

    /// The address to ask.
    pub fn health_url(&self) -> (result: &String)
        ensures
            result@ == self@.health_url,
    {
        &self.health_url
    }

    /// Takes whether the proxy answered.
    pub fn polled(self, answered: bool) -> (step: ProxyStep)
        ensures
            step@ == step_after_poll(self@, answered),
    {
        proof {
            use_type_invariant(&self);
        }
        if answered {
            ProxyStep::Ready
        } else if self.polls + 1 < POLL_LIMIT {
            ProxyStep::Again(ProxyWait { health_url: self.health_url, polls: self.polls + 1 })
        } else {
            ProxyStep::Failed("proxy failed to start within 2 seconds".to_owned())
        }
    }
}

/// Where a wait has come to after a row of polls; it stops at the first that ends it.
pub open spec fn after_polls(wait: ProxyWaitView, answers: Seq<bool>) -> ProxyStepView
    decreases answers.len(),
{
    if answers.len() == 0 {
        ProxyStepView::Again(wait)
    } else {
        match step_after_poll(wait, answers[0]) {
            ProxyStepView::Again(next) => after_polls(next, answers.drop_first()),
            step => step,
        }
    }
}

/// A wait ends well just where one of the first polls, up to the limit, is answered; it fails just
/// where all of them are not; and it goes on while there were fewer.
pub proof fn law_wait_for_proxy(host: Seq<char>, port: u16, answers: Seq<bool>)
    ensures
        ({
            let wait = ProxyWaitView { health_url: health_address(host, port), polls: 0 };
            let tried = if answers.len() < POLL_LIMIT {
                answers
            } else {
                answers.take(POLL_LIMIT as int)
            };
            after_polls(wait, answers) == (if tried.contains(true) {
                ProxyStepView::Ready
            } else if answers.len() < POLL_LIMIT {
                ProxyStepView::Again(ProxyWaitView { polls: answers.len(), ..wait })
            } else {
                ProxyStepView::Failed("proxy failed to start within 2 seconds"@)
            })
        }),
{
    lemma_after_polls(
        ProxyWaitView { health_url: health_address(host, port), polls: 0 },
        answers,
    );
}

proof fn lemma_after_polls(wait: ProxyWaitView, answers: Seq<bool>)
    requires
        wait.polls < POLL_LIMIT,
    ensures
        ({
            let left = POLL_LIMIT - wait.polls;
            let tried = if answers.len() < left {
                answers
            } else {
                answers.take(left)
            };
            after_polls(wait, answers) == (if tried.contains(true) {
                ProxyStepView::Ready
            } else if answers.len() < left {
                ProxyStepView::Again(
                    ProxyWaitView { polls: wait.polls + answers.len(), ..wait },
                )
            } else {
                ProxyStepView::Failed("proxy failed to start within 2 seconds"@)
            })
        }),
    decreases answers.len(),
{
    let left = POLL_LIMIT - wait.polls;
    let tried = if answers.len() < left {
        answers
    } else {
        answers.take(left)
    };
    if answers.len() > 0 {
        let rest = answers.drop_first();
        assert(tried[0] == answers[0]);
        if !answers[0] {
            if wait.polls + 1 < POLL_LIMIT {
                let next = ProxyWaitView { polls: wait.polls + 1, ..wait };
                lemma_after_polls(next, rest);
                let rest_tried = if rest.len() < left - 1 {
                    rest
                } else {
                    rest.take(left - 1)
                };
                assert(tried =~= seq![answers[0]] + rest_tried);
                if rest_tried.contains(true) {
                    let i = choose|i: int| 0 <= i < rest_tried.len() && rest_tried[i];
                    assert(tried[i + 1]);
                }
                if tried.contains(true) {
                    let i = choose|i: int| 0 <= i < tried.len() && tried[i];
                    assert(rest_tried[i - 1]);
                }
            } else {
                assert(tried =~= seq![false]);
                assert(!tried.contains(true));
            }
        }
    } else {
        assert(!tried.contains(true));
    }
}

/// A proxy is asked under its own host and port.
pub proof fn law_health_address(host: Seq<char>, port: u16)
    ensures
        health_address(host, port) == "http://"@ + host + seq![':'] + decimal(port as nat)
            + "/health"@,
{
    reveal_strlit(":");
    assert(":"@ =~= seq![':']);
}

/// A proxy is asked twenty times, a tenth of a second apart: two seconds in all.
pub proof fn law_proxy_is_given_two_seconds()
    ensures
        POLL_LIMIT == 20,
        POLL_DELAY_MILLIS == 100,
{
}

} // verus!
