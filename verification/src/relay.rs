//! The output relay: turns what is read from the terminal into `stdout`
//! events, in arrival order, until the stream closes.

use crate::event::{EventView, TerminalStreamEvent};
use vstd::prelude::*;
use vstd::string::*;
use vstd::utf8::{decode_utf8, valid_utf8};

verus! {

/// The text that lossy UTF-8 decoding makes of `bytes`: the decoded text
/// where the bytes are valid UTF-8, otherwise the valid parts with each
/// invalid sequence replaced by U+FFFD.
pub uninterp spec fn lossy_text(bytes: Seq<u8>) -> Seq<char>;

/// `String::from_utf8_lossy`, made into an owned string.  The result is a
/// function of the bytes alone; valid UTF-8 comes back as the text it
/// encodes.
#[verifier::external_body]
fn decode_lossy(bytes: &[u8]) -> (text: String)
    ensures
        text@ == lossy_text(bytes@),
        valid_utf8(bytes@) ==> text@ == decode_utf8(bytes@),
{
    String::from_utf8_lossy(bytes).to_string()
}

/// The `stdout` event that carries `chunk`.
pub fn stdout_event(chunk: String) -> (event: TerminalStreamEvent)
    ensures
        event@ == (EventView::Stdout { chunk: chunk@ }),
{
    TerminalStreamEvent::Stdout { chunk }
}

/// Mathematical content of an [`OutputRelay`].
pub struct RelayView {
    /// Whether the relay still forwards output.
    pub open: bool,
    /// The events the relay has produced so far, oldest first.
    pub published: Seq<EventView>,
}

/// What one read amounts to: the bytes of a successful, non-empty read, or
/// nothing when the read returned no bytes or failed.
pub open spec fn payload(read: Option<&[u8]>) -> Option<Seq<u8>> {
    match read {
        Some(bytes) => if bytes@.len() > 0 {
            Some(bytes@)
        } else {
            None
        },
        None => None,
    }
}

impl RelayView {
    /// The event that an open relay makes of `bytes`.
    pub open spec fn chunk_event(bytes: Seq<u8>) -> EventView {
        EventView::Stdout { chunk: lossy_text(bytes) }
    }

    /// The event published for a read, if any: an open relay forwards every
    /// non-empty read, a closed one nothing.
    pub open spec fn emission(self, read: Option<Seq<u8>>) -> Option<EventView> {
        match read {
            Some(bytes) => if self.open {
                Some(Self::chunk_event(bytes))
            } else {
                None
            },
            None => None,
        }
    }

    /// The relay after a read: it stays open and grows by one event on a
    /// non-empty read, and is closed for good by anything else.
    pub open spec fn after_read(self, read: Option<Seq<u8>>) -> RelayView {
        match self.emission(read) {
            Some(event) => RelayView { open: true, published: self.published.push(event) },
            None => RelayView { open: false, published: self.published },
        }
    }
}

/// Per-session relay state.  A relay comes into being with its session and is
/// closed by the first empty or failed read.
pub struct OutputRelay {
    open: bool,
    published: Ghost<Seq<EventView>>,
}

impl View for OutputRelay {
    type V = RelayView;

    closed spec fn view(&self) -> RelayView {
        RelayView { open: self.open, published: self.published@ }
    }
}

impl OutputRelay {
    /// A relay that has forwarded nothing yet.
    pub(crate) fn new() -> (relay: Self)
        ensures
            relay@ == (RelayView { open: true, published: Seq::empty() }),
    {
        OutputRelay { open: true, published: Ghost(Seq::empty()) }
    }

    /// Whether the relay still forwards output.
    pub fn is_open(&self) -> (open: bool)
        ensures
            open == self@.open,
    {
        self.open
    }

    /// Handles the outcome of one read from the terminal: `Some` with the
    /// bytes read, `None` when the read failed.
    ///
    /// A non-empty read on an open relay yields one `stdout` event holding
    /// the lossily decoded bytes, appended to what was published before;
    /// bytes that are valid UTF-8 come out as the text they encode.
    /// Anything else yields no event and closes the relay.
    pub fn forward(&mut self, read: Option<&[u8]>) -> (event: Option<TerminalStreamEvent>)
        ensures
            final(self)@ == old(self)@.after_read(payload(read)),
            match event {
                Some(produced) => old(self)@.emission(payload(read)) == Some(produced@),
                None => old(self)@.emission(payload(read)) is None,
            },
            event matches Some(TerminalStreamEvent::Stdout { chunk }) ==> (valid_utf8(
                payload(read)->Some_0,
            ) ==> chunk@ == decode_utf8(payload(read)->Some_0)),
    {
        match read {
            Some(bytes) => {
                if self.open && bytes.len() > 0 {
                    let event = stdout_event(decode_lossy(bytes));
                    self.published = Ghost(self.published@.push(event@));
                    return Some(event);
                }
            },
            None => {},
        }
        self.open = false;
        None
    }

    /// Closes the relay because nobody takes its events any more.
    pub fn close(&mut self)
        ensures
            final(self)@ == (RelayView { open: false, published: old(self)@.published }),
    {
        self.open = false;
    }
}

} // verus!
