use vstd::prelude::*;
use crate::text::{has_substring, text_contains, text_equals};

verus! {

/// Where the recognizer stands in an utterance.
#[derive(Clone, Copy, PartialEq, Eq, Structural, Debug)]
pub enum Phase {
    /// Waiting for the wake word to appear in the decoded text.
    Listening,
    /// The wake word was heard; following the text until it stops changing.
    Ready,
    /// The text has stopped changing; the next decoded text closes the utterance.
    Complete,
}

/// The abstract state of a [`Recognizer`].
pub struct RecognizerState {
    pub phase: Phase,
    pub wake_word: Seq<char>,
    /// The last text seen while `Ready`.
    pub prev_text: Seq<char>,
    /// The completion timer is running.
    pub timer_running: bool,
    /// A completion timer was started during this utterance, so its signals are awaited.
    pub awaiting_timer: bool,
}

/// What the driver of a [`Recognizer`] has to do after a decoded text.
#[derive(Debug, PartialEq, Eq)]
pub enum Reaction {
    /// Show the decoded text (the recognizer is listening for the wake word).
    Show,
    /// Nothing to do.
    Quiet,
    /// Start a new completion timer; when `stop_first`, stop the running one before.
    RestartTimer { stop_first: bool },
    /// The utterance is over: send `message`, then go on with a fresh timer.
    Finish { message: String },
}

/// The abstract value of a [`Reaction`].
pub enum ReactionModel {
    Show,
    Quiet,
    RestartTimer { stop_first: bool },
    Finish { message: Seq<char> },
}

impl View for Reaction {
    type V = ReactionModel;

    open spec fn view(&self) -> ReactionModel {
        match self {
            Reaction::Show => ReactionModel::Show,
            Reaction::Quiet => ReactionModel::Quiet,
            Reaction::RestartTimer { stop_first } => ReactionModel::RestartTimer {
                stop_first: *stop_first,
            },
            Reaction::Finish { message } => ReactionModel::Finish { message: message@ },
        }
    }
}

/// The message sent when an utterance is over.
pub open spec fn finish_message() -> Seq<char> {
    seq!['t', 'e', 'x', 't']
}

impl RecognizerState {
    /// The state at the start of an utterance.
    pub open spec fn fresh(wake_word: Seq<char>) -> RecognizerState {
        RecognizerState {
            phase: Phase::Listening,
            wake_word,
            prev_text: Seq::empty(),
            timer_running: false,
            awaiting_timer: false,
        }
    }

    /// What every reachable state satisfies.
    pub open spec fn well_formed(self) -> bool {
        &&& self.phase == Phase::Complete ==> !self.timer_running
        &&& self.timer_running ==> self.awaiting_timer
        &&& self.phase == Phase::Listening ==> {
            &&& !self.timer_running
            &&& !self.awaiting_timer
            &&& self.prev_text.len() == 0
        }
    }

    /// The state after the completion timer signalled `complete`, and whether the
    /// running timer has to be stopped.
    pub open spec fn after_signal(self, complete: bool) -> (RecognizerState, bool) {
        if complete {
            (
                RecognizerState { phase: Phase::Complete, timer_running: false, ..self },
                self.timer_running,
            )
        } else {
            (self, false)
        }
    }

    /// The state after a decoded `text`, and what the driver has to do.
    pub open spec fn after_text(self, text: Seq<char>) -> (RecognizerState, ReactionModel) {
        match self.phase {
            Phase::Listening => {
                if has_substring(text, self.wake_word) {
                    (RecognizerState { phase: Phase::Ready, ..self }, ReactionModel::Show)
                } else {
                    (self, ReactionModel::Show)
                }
            },
            Phase::Ready => {
                if text != self.prev_text {
                    (
                        RecognizerState {
                            prev_text: text,
                            timer_running: true,
                            awaiting_timer: true,
                            ..self
                        },
                        ReactionModel::RestartTimer { stop_first: self.timer_running },
                    )
                } else {
                    (self, ReactionModel::Quiet)
                }
            },
            Phase::Complete => (
                RecognizerState::fresh(self.wake_word),
                ReactionModel::Finish { message: finish_message() },
            ),
        }
    }
}

/// Follows the decoded text of a speech stream: waits for the wake word, then
/// for the text to settle, and reports when an utterance is complete.
pub struct Recognizer {
    wake_word: String,
    phase: Phase,
    prev_text: String,
    timer_running: bool,
    awaiting_timer: bool,
}

impl View for Recognizer {
    type V = RecognizerState;

    closed spec fn view(&self) -> RecognizerState {
        RecognizerState {
            phase: self.phase,
            wake_word: self.wake_word@,
            prev_text: self.prev_text@,
            timer_running: self.timer_running,
            awaiting_timer: self.awaiting_timer,
        }
    }
}

impl Recognizer {
    #[verifier::type_invariant]
    closed spec fn inv(self) -> bool {
        self@.well_formed()
    }

    /// A recognizer at the start of an utterance, listening for `wake_word`.
    pub fn new(wake_word: String) -> (r: Recognizer)
        ensures
            r@ == RecognizerState::fresh(wake_word@),
            r@.well_formed(),
    {
        Recognizer {
            wake_word,
            phase: Phase::Listening,
            prev_text: String::new(),
            timer_running: false,
            awaiting_timer: false,
        }
    }

    /// The current phase.
    pub fn phase(&self) -> (p: Phase)
        ensures
            p == self@.phase,
            self@.well_formed(),
    {
        proof {
            use_type_invariant(self);
        }
        self.phase
    }

    /// Whether signals of a completion timer are awaited.
    pub fn awaits_timer(&self) -> (b: bool)
        ensures
            b == self@.awaiting_timer,
            self@.well_formed(),
    {
        proof {
            use_type_invariant(self);
        }
        self.awaiting_timer
    }

    /// Whether the completion timer is running.
    pub fn timer_running(&self) -> (b: bool)
        ensures
            b == self@.timer_running,
            self@.well_formed(),
    {
        proof {
            use_type_invariant(self);
        }
        self.timer_running
    }

    /// The completion timer signalled `complete`; returns whether the running
    /// timer has to be stopped.
    pub fn on_timer_signal(&mut self, complete: bool) -> (stop_timer: bool)
        requires
            old(self)@.awaiting_timer,
        ensures
            (final(self)@, stop_timer) == old(self)@.after_signal(complete),
            final(self)@.well_formed(),
    {
        proof {
            use_type_invariant(&*self);
        }
        if complete {
            let stop = self.timer_running;
            self.timer_running = false;
            self.phase = Phase::Complete;
            stop
        } else {
            false
        }
    }

    /// The stream decoded `text`; returns what the driver has to do.
    pub fn on_text(&mut self, text: String) -> (reaction: Reaction)
        ensures
            final(self)@ == old(self)@.after_text(text@).0,
            reaction@ == old(self)@.after_text(text@).1,
            final(self)@.well_formed(),
    {
        proof {
            use_type_invariant(&*self);
        }
        match self.phase {
            Phase::Listening => {
                if text_contains(text.as_str(), self.wake_word.as_str()) {
                    self.phase = Phase::Ready;
                }
                Reaction::Show
            },
            Phase::Ready => {
                if !text_equals(text.as_str(), self.prev_text.as_str()) {
                    let stop_first = self.timer_running;
                    self.prev_text = text;
                    self.awaiting_timer = true;
                    self.timer_running = true;
                    Reaction::RestartTimer { stop_first }
                } else {
                    Reaction::Quiet
                }
            },
            Phase::Complete => {
                self.awaiting_timer = false;
                self.prev_text = String::new();
                self.phase = Phase::Listening;
                let message = String::from_str("text");
                proof {
                    reveal_strlit("text");
                    assert(message@ =~= finish_message());
                }
                Reaction::Finish { message }
            },
        }
    }
}

} // verus!

verus! {

/// Every transition keeps a well-formed state well-formed, and none changes the
/// wake word.
pub proof fn lemma_transitions_keep_well_formed(s: RecognizerState, text: Seq<char>, complete: bool)
    requires
        s.well_formed(),
    ensures
        s.after_text(text).0.well_formed(),
        s.after_text(text).0.wake_word == s.wake_word,
        s.awaiting_timer ==> s.after_signal(complete).0.well_formed(),
        s.after_signal(complete).0.wake_word == s.wake_word,
{
}

/// While listening, the recognizer shows every decoded text, and becomes ready
/// exactly when the text contains the wake word.
pub proof fn lemma_wake_word_opens_utterance(s: RecognizerState, text: Seq<char>)
    requires
        s.well_formed(),
        s.phase == Phase::Listening,
    ensures
        s.after_text(text).1 == ReactionModel::Show,
        (s.after_text(text).0.phase == Phase::Ready) == has_substring(text, s.wake_word),
        !has_substring(text, s.wake_word) ==> s.after_text(text).0 == s,
{
}

/// While ready, a text that differs from the previous one restarts the completion
/// timer (stopping the running one first) and becomes the previous text.
pub proof fn lemma_changed_text_restarts_timer(s: RecognizerState, text: Seq<char>)
    requires
        s.well_formed(),
        s.phase == Phase::Ready,
        text != s.prev_text,
    ensures
        s.after_text(text).1 == (ReactionModel::RestartTimer { stop_first: s.timer_running }),
        s.after_text(text).0.prev_text == text,
        s.after_text(text).0.timer_running,
        s.after_text(text).0.phase == Phase::Ready,
{
}

/// While ready, decoding the same text again changes nothing: the timer started
/// by the first one keeps running.
pub proof fn lemma_repeated_text_is_quiet(s: RecognizerState, text: Seq<char>)
    requires
        s.well_formed(),
        s.phase == Phase::Ready,
    ensures
        ({
            let s1 = s.after_text(text).0;
            s1.after_text(text) == (s1, ReactionModel::Quiet)
        }),
{
}

/// Once the completion timer fires, the running timer is stopped, and the next
/// decoded text closes the utterance: the message is sent and the recognizer
/// starts over, listening for the same wake word.
pub proof fn lemma_completion_closes_utterance(s: RecognizerState, text: Seq<char>)
    requires
        s.well_formed(),
        s.awaiting_timer,
    ensures
        s.after_signal(true).1 == s.timer_running,
        !s.after_signal(true).0.timer_running,
        s.after_signal(true).0.after_text(text) == (
            RecognizerState::fresh(s.wake_word),
            ReactionModel::Finish { message: finish_message() },
        ),
{
}

/// A timer signal that does not report completion changes nothing.
pub proof fn lemma_incomplete_signal_is_ignored(s: RecognizerState)
    ensures
        s.after_signal(false) == (s, false),
{
}

} // verus!

verus! {

/// Hearing the wake word changes only the phase: the previous text stays as it
/// was (empty, in a well-formed state), no timer is started and none is awaited.
pub proof fn lemma_waking_changes_only_phase(s: RecognizerState, text: Seq<char>)
    requires
        s.well_formed(),
        s.phase == Phase::Listening,
        has_substring(text, s.wake_word),
    ensures
        s.after_text(text).0.phase == Phase::Ready,
        s.after_text(text).0.prev_text == s.prev_text,
        s.after_text(text).0.prev_text.len() == 0,
        s.after_text(text).0.wake_word == s.wake_word,
        !s.after_text(text).0.timer_running,
        !s.after_text(text).0.awaiting_timer,
{
}

/// After waking, the first nonempty text decoded starts the completion timer
/// (with no running timer to stop), even when it is the text that woke it.
pub proof fn lemma_first_text_after_waking_starts_timer(
    wake_word: Seq<char>,
    waking: Seq<char>,
    text: Seq<char>,
)
    requires
        has_substring(waking, wake_word),
        text.len() > 0,
    ensures
        ({
            let s1 = RecognizerState::fresh(wake_word).after_text(waking).0;
            &&& s1.after_text(text).1 == (ReactionModel::RestartTimer { stop_first: false })
            &&& s1.after_text(text).0.awaiting_timer
            &&& s1.after_text(text).0.timer_running
            &&& s1.after_text(text).0.prev_text == text
        }),
{
    let s1 = RecognizerState::fresh(wake_word).after_text(waking).0;
    assert(s1.prev_text.len() == 0);
    assert(text != s1.prev_text);
}

/// Timer signals become awaited only when a decoded text restarts the timer.
pub proof fn lemma_awaiting_starts_only_with_timer(s: RecognizerState, text: Seq<char>, complete: bool)
    ensures
        (s.after_text(text).0.awaiting_timer && !s.awaiting_timer) ==> s.after_text(text).1 is RestartTimer,
        s.after_signal(complete).0.awaiting_timer == s.awaiting_timer,
{
}

/// A completion signal changes only the phase, which becomes complete, and the
/// running flag, which drops: the previous text, the wake word and the awaiting
/// of timer signals stay, and the running timer is to be stopped.
pub proof fn lemma_completion_changes_phase_and_timer(s: RecognizerState)
    ensures
        s.after_signal(true).0.phase == Phase::Complete,
        !s.after_signal(true).0.timer_running,
        s.after_signal(true).0.awaiting_timer == s.awaiting_timer,
        s.after_signal(true).0.prev_text == s.prev_text,
        s.after_signal(true).0.wake_word == s.wake_word,
        s.after_signal(true).1 == s.timer_running,
{
}

} // verus!

verus! {

/// A fresh recognizer listens for its wake word with no previous text, no
/// timer running and none awaited.
pub proof fn lemma_fresh_state(wake_word: Seq<char>)
    ensures
        RecognizerState::fresh(wake_word).phase == Phase::Listening,
        RecognizerState::fresh(wake_word).wake_word == wake_word,
        RecognizerState::fresh(wake_word).prev_text.len() == 0,
        !RecognizerState::fresh(wake_word).timer_running,
        !RecognizerState::fresh(wake_word).awaiting_timer,
        RecognizerState::fresh(wake_word).well_formed(),
{
}

} // verus!
