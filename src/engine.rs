//! The state that the host's callbacks drive: the chat editor, the
//! chat-sound listener and the bridge, owned together.
use vstd::prelude::*;
use crate::editor::{Chat, EditorView, key_down, key_press, track};
use crate::events::{admits, EventHandlerModule, IncomingEvent, Key, Out, outs};
use crate::sounds::ChatsoundsEventListener;

verus! {

/// The editor's state after an input event reaches it.
pub open spec fn input_step(v: EditorView, ev: IncomingEvent) -> EditorView {
    match ev {
        IncomingEvent::InputDown(k, repeat) => key_down(v, k, repeat),
        IncomingEvent::InputUp(k, _) => EditorView { held: track(v.held, k, false), ..v },
        IncomingEvent::InputPress(c) => key_press(v, c),
        _ => v,
    }
}

/// Everything the host's callbacks drive.
pub struct Engine {
    pub chat: Chat,
    pub chatsounds: ChatsoundsEventListener,
    pub bridge: EventHandlerModule,
}

impl Engine {
    pub open spec fn inv(&self) -> bool {
        self.chat.inv() && self.chatsounds.inv()
    }

    /// A closed editor opened by `open_chat_key` and sent by `send_chat_key`,
    /// nothing counted, nothing queued.
    pub fn new(open_chat_key: Key, send_chat_key: Key) -> (r: Engine)
        ensures
            r.inv(),
            r.chat@.open_key == open_chat_key,
            r.chat@.send_key == send_chat_key,
            r.chat@.out == Seq::<Out>::empty(),
            !r.bridge.simulating(),
            r.bridge.queued() == Seq::<Out>::empty(),
    {
        Engine {
            chat: Chat::new(open_chat_key, send_chat_key),
            chatsounds: ChatsoundsEventListener::new(),
            bridge: EventHandlerModule::new(),
        }
    }

    /// Hands an input callback to the editor, unless the bridge is feeding
    /// its own events to the host; what the editor asks of the host is
    /// queued on the bridge. Returns whether the event was taken.
    pub fn handle_input(&mut self, ev: &IncomingEvent) -> (r: bool)
        requires
            old(self).inv(),
        ensures
            final(self).inv(),
            r == admits(old(self).bridge.simulating(), *ev),
            !r ==> final(self).chat@ == old(self).chat@ && final(self).bridge.queued()
                == old(self).bridge.queued(),
            r ==> final(self).chat@ == (EditorView { out: Seq::empty(), ..input_step(old(self).chat@, *ev) })
                && final(self).bridge.queued() == old(self).bridge.queued() + input_step(
                old(self).chat@,
                *ev,
            ).out,
            final(self).bridge.simulating() == old(self).bridge.simulating(),
            final(self).chatsounds == old(self).chatsounds,
    {
        if !self.bridge.accepts(ev) {
            return false;
        }
        match ev {
            IncomingEvent::InputDown(k, repeat) => self.chat.handle_key_down(*k, *repeat),
            IncomingEvent::InputUp(k, _) => self.chat.handle_key_up(*k),
            IncomingEvent::InputPress(c) => self.chat.handle_key_press(*c),
            _ => {},
        }
        let out = self.chat.take_outgoing();
        self.bridge.queue_all(out);
        true
    }
}

} // verus!
