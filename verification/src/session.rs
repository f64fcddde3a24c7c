//! One client's protocol, as a state machine from inbound events to the
//! replies and broadcast lines the connection's two loops must carry out.
//!
//! A session starts in the naming phase: inbound payloads are parsed and
//! the candidate name is claimed against the registry; a malformed payload
//! ends the session with an error reply, a taken (or empty) name echoes
//! the payload's content back and stays in the naming phase. Once named,
//! every inbound text becomes a broadcast line, until either loop stops
//! and the session is torn down as one unit: leave notice published, name
//! released, subscription handle consumed.

use vstd::prelude::*;

verus! {

use crate::hub::Hub;
use crate::hub::Subscription;
use crate::message::chat_line;
use crate::message::ChatMessage;
use crate::message::chat_line_spec;
use crate::message::joined_notice;
use crate::message::joined_notice_spec;
use crate::message::json_message_of;
use crate::message::left_notice;
use crate::message::left_notice_spec;
use crate::message::parse_message;
use crate::message::wrong_format_reply;
use crate::message::wrong_format_reply_spec;
use crate::registry::claim_allowed;
use crate::registry::Registry;

/// Where a session stands in its lifetime.
#[derive(Clone)]
pub enum Phase {
    /// Connected, no name claimed yet.
    Naming,
    /// Name claimed; chat lines flow.
    Joined,
    /// Terminated; nothing more happens on this session.
    Done,
}

/// The server-side representative of one connected client.
#[derive(Clone)]
pub struct Session {
    phase: Phase,
    name: String,
}

/// What the naming phase asks the connection to do next.
pub enum NamingStep {
    /// The payload was malformed: send this error reply and terminate the
    /// session; it never joins and no notice is broadcast.
    Rejected(String),
    /// The candidate name is taken (or empty): echo the payload's content
    /// back and wait for another attempt.
    Retry(String),
    /// The name was claimed; the session is joined.
    Accepted,
}

impl Session {
    pub closed spec fn is_naming(&self) -> bool {
        self.phase is Naming
    }

    pub closed spec fn is_joined(&self) -> bool {
        self.phase is Joined
    }

    pub closed spec fn is_done(&self) -> bool {
        self.phase is Done
    }

    /// The display name this session holds once joined.
    pub closed spec fn name_view(&self) -> Seq<char> {
        self.name@
    }

    /// A fresh session for a newly upgraded connection: unnamed, in the
    /// naming phase.
    pub fn new() -> (s: Session)
        ensures
            s.is_naming(),
            !s.is_joined(),
            !s.is_done(),
    {
        Session { phase: Phase::Naming, name: String::new() }
    }

    /// Whether the session is still in the naming phase.
    pub fn naming(&self) -> (r: bool)
        ensures
            r == self.is_naming(),
    {
        match self.phase {
            Phase::Naming => true,
            _ => false,
        }
    }

    /// Whether the session has claimed its name.
    pub fn joined(&self) -> (r: bool)
        ensures
            r == self.is_joined(),
    {
        match self.phase {
            Phase::Joined => true,
            _ => false,
        }
    }

    /// Handle one inbound text while still unnamed.
    ///
    /// A payload that is not a JSON object with string fields `content`,
    /// `from` and `time` is rejected: the session terminates and the
    /// registry is untouched. A well-formed payload whose name is already
    /// claimed — or empty, a display name must be non-empty — changes
    /// nothing and asks the client to retry, echoing the payload's
    /// content. Otherwise the name is claimed and the session is joined.
    pub fn on_naming_text(&mut self, registry: &mut Registry, text: &str) -> (step: NamingStep)
        requires
            old(self).is_naming(),
            old(registry).wf(),
        ensures
            final(registry).wf(),
            json_message_of(text@) is None ==> {
                &&& step matches NamingStep::Rejected(reply) && reply@ == wrong_format_reply_spec()
                &&& final(self).is_done()
                &&& final(registry)@ == old(registry)@
            },
            json_message_of(text@) matches Some(fields) ==> {
                if fields.1.len() == 0 || old(registry)@.contains(fields.1) {
                    &&& step matches NamingStep::Retry(echo) && echo@ == fields.0
                    &&& final(self).is_naming()
                    &&& final(registry)@ == old(registry)@
                } else {
                    &&& step matches NamingStep::Accepted
                    &&& final(self).is_joined()
                    &&& final(self).name_view() == fields.1
                    &&& final(registry)@ == old(registry)@.insert(fields.1)
                }
            },
    {
        match parse_message(text) {
            None => {
                self.phase = Phase::Done;
                NamingStep::Rejected(wrong_format_reply())
            },
            Some(msg) => self.on_naming_message(registry, msg),
        }
    }

    /// Handle one well-formed inbound payload while still unnamed: claim
    /// the payload's `from` as this session's name. A name that is taken
    /// — or empty, a display name must be non-empty — changes nothing and
    /// echoes the payload's `content` back; otherwise the name is claimed
    /// and the session is joined.
    pub fn on_naming_message(&mut self, registry: &mut Registry, msg: ChatMessage) -> (step:
        NamingStep)
        requires
            old(self).is_naming(),
            old(registry).wf(),
        ensures
            final(registry).wf(),
            if msg.from@.len() == 0 || old(registry)@.contains(msg.from@) {
                &&& step matches NamingStep::Retry(echo) && echo@ == msg.content@
                &&& final(self).is_naming()
                &&& final(registry)@ == old(registry)@
            } else {
                &&& step matches NamingStep::Accepted
                &&& final(self).is_joined()
                &&& final(self).name_view() == msg.from@
                &&& final(registry)@ == old(registry)@.insert(msg.from@)
            },
    {
        if msg.from.as_str().is_empty() {
            NamingStep::Retry(msg.content)
        } else if registry.try_claim(msg.from.as_str()) {
            self.name = msg.from;
            self.phase = Phase::Joined;
            NamingStep::Accepted
        } else {
            NamingStep::Retry(msg.content)
        }
    }

    /// The client went away before ever claiming a name: the session ends
    /// without joining — no notice is broadcast, and no name needs to be
    /// released.
    pub fn on_naming_closed(&mut self)
        requires
            old(self).is_naming(),
        ensures
            final(self).is_done(),
    {
        self.phase = Phase::Done;
    }

    /// Join the hub: subscribe, then publish the join notice.
    ///
    /// The subscription is taken before the notice is published, so the
    /// new session receives its own join notice — self-echo is expected
    /// behaviour throughout.
    pub fn join_hub(&self, hub: &mut Hub) -> (r: (Subscription, String))
        requires
            self.is_joined(),
            old(hub).wf(),
            old(hub).history().len() < usize::MAX,
        ensures
            final(hub).wf(),
            final(hub).capacity() == old(hub).capacity(),
            final(hub).oldest_live() == vstd::math::max(
                old(hub).oldest_live(),
                final(hub).history().len() - final(hub).capacity(),
            ),
            r.1@ == joined_notice_spec(self.name_view()),
            final(hub).history() == old(hub).history().push(r.1@),
            r.0.wf(*final(hub)),
            r.0.cursor() == old(hub).history().len(),
            r.0.received() == Seq::<int>::empty(),
    {
        let sub = hub.subscribe();
        let notice = joined_notice(self.name.as_str());
        let out = notice.clone();
        let ghost before = *hub;
        hub.publish(notice);
        proof {
            sub.lemma_wf_after_publish(before, *hub);
        }
        (sub, out)
    }

    /// Relay one inbound text from this named session: the line
    /// `"{name}: {text}"` is published for every subscriber (the sender
    /// included) and also handed back, so the connection's runtime can
    /// forward it on its own transport.
    pub fn chat(&self, hub: &mut Hub, text: &str) -> (line: String)
        requires
            self.is_joined(),
            old(hub).wf(),
            old(hub).history().len() < usize::MAX,
        ensures
            final(hub).wf(),
            final(hub).capacity() == old(hub).capacity(),
            final(hub).oldest_live() == vstd::math::max(
                old(hub).oldest_live(),
                final(hub).history().len() - final(hub).capacity(),
            ),
            line@ == chat_line_spec(self.name_view(), text@),
            final(hub).history() == old(hub).history().push(line@),
    {
        let line = chat_line(self.name.as_str(), text);
        let out = line.clone();
        hub.publish(line);
        out
    }

    /// Tear the session down as one unit, whichever loop stopped first.
    ///
    /// The subscription handle is consumed, so no further hub message can
    /// be delivered to this session's now-closed outbound path; the leave
    /// notice is published for the remaining subscribers; and the name is
    /// released, so it is claimable by a new connection at once.
    pub fn teardown(&mut self, registry: &mut Registry, hub: &mut Hub, sub: Subscription) -> (notice:
        String)
        requires
            old(self).is_joined(),
            old(registry).wf(),
            old(hub).wf(),
            old(hub).history().len() < usize::MAX,
        ensures
            final(self).is_done(),
            final(registry).wf(),
            final(hub).wf(),
            final(hub).capacity() == old(hub).capacity(),
            final(hub).oldest_live() == vstd::math::max(
                old(hub).oldest_live(),
                final(hub).history().len() - final(hub).capacity(),
            ),
            notice@ == left_notice_spec(old(self).name_view()),
            final(hub).history() == old(hub).history().push(notice@),
            final(registry)@ == old(registry)@.remove(old(self).name_view()),
            claim_allowed(final(registry)@, old(self).name_view()),
    {
        let notice = left_notice(self.name.as_str());
        let out = notice.clone();
        hub.publish(notice);
        registry.release(self.name.as_str());
        self.phase = Phase::Done;
        out
    }
}

} // verus!
