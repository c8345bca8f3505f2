//! The decisions of the control loop: what a frame draws and writes, and
//! what an input does to the model. The loop itself, which waits for input
//! and talks to the terminal, runs outside the library.
use vstd::prelude::*;

use crate::event::{KeyCode, KeyEvent};
use crate::screen::{
    blank_cell, diff, diff_cells, lemma_diff_self, CellChange, CellView, Character, ScreenBuffer,
};
use crate::tree::{fits, lemma_paint_idempotent, painted, render, Bounds, RenderError, ViewNode};

verus! {

/// An application wired to the toolkit: its first model, its update and
/// view functions, its subscriptions, and the terminal's size in cells.
pub struct Terminal<M, V, U, S> {
    pub init: M,
    pub update: U,
    pub view: V,
    pub subscriptions: S,
    pub size: (u16, u16),
}

impl<M, V, U, S> Terminal<M, V, U, S> {
    pub fn new(init: M, update: U, view: V, subscriptions: S, size: (u16, u16)) -> (r: Self)
        ensures
            r.init == init,
            r.update == update,
            r.view == view,
            r.subscriptions == subscriptions,
            r.size == size,
    {
        Terminal { init, update, view, subscriptions, size }
    }

    /// The whole screen.
    pub fn screen_bounds(&self) -> (r: Bounds)
        ensures
            r.origin == (0u16, 0u16),
            r.size == self.size,
    {
        Bounds { origin: (0, 0), size: self.size }
    }

    /// The screen as it is after clearing: every cell blank.
    pub fn blank_screen(&self) -> (r: ScreenBuffer)
        ensures
            r.wf(),
            r.spec_width() == self.size.0,
            r.spec_height() == self.size.1,
            r@ == Seq::new((self.size.0 * self.size.1) as nat, |k: int| blank_cell()),
    {
        let width = self.size.0 as usize;
        let height = self.size.1 as usize;
        assert(width * height <= 0xffff * 0xffff) by (nonlinear_arith)
            requires
                width <= 0xffff,
                height <= 0xffff,
        ;
        ScreenBuffer::new(width, height, Character::default())
    }
}

/// One drawn frame: the new screen, and the cells that must be written to
/// bring the terminal from the previous screen to it, in row-major order.
#[derive(Debug)]
pub struct Frame {
    pub buffer: ScreenBuffer,
    pub changes: Vec<CellChange>,
}

/// Draws `view` into `bounds` over a copy of the previous screen and
/// compares the result with the previous screen.
pub fn next_frame<Handler>(view: &ViewNode<Handler>, previous: &ScreenBuffer, bounds: &Bounds) -> (r:
    Result<Frame, RenderError>)
    requires
        previous.wf(),
    ensures
        r is Ok <==> fits(
            *view,
            *bounds,
            previous.spec_width() as nat,
            previous.spec_height() as nat,
        ),
        r matches Err(e) ==> e == RenderError::LayoutBounds,
        r matches Ok(f) ==> {
            &&& f.buffer.wf()
            &&& f.buffer.spec_width() == previous.spec_width()
            &&& f.buffer.spec_height() == previous.spec_height()
            &&& f.buffer@ == painted(*view, *bounds, previous.spec_width() as nat, previous@)
            &&& f.changes@.map_values(|c: CellChange| c@) == diff_cells(
                f.buffer@,
                previous@,
                previous.spec_width() as nat,
                previous@.len(),
            )
        },
{
    let mut buffer = previous.clone();
    match render(view, &mut buffer, bounds) {
        Ok(()) => {
            let changes = diff(&buffer, previous);
            Ok(Frame { buffer, changes })
        },
        Err(e) => Err(e),
    }
}

/// Drawing an unchanged view over the frame it produced writes nothing:
/// the second frame has no change.
pub proof fn lemma_unchanged_view_redraws_nothing<H>(
    view: ViewNode<H>,
    bounds: Bounds,
    previous: ScreenBuffer,
)
    requires
        previous.wf(),
    ensures
        ({
            let w = previous.spec_width() as nat;
            let first = painted(view, bounds, w, previous@);
            diff_cells(painted(view, bounds, w, first), first, w, first.len()) == Seq::<
                (int, int, CellView),
            >::empty()
        }),
{
    let w = previous.spec_width() as nat;
    let first = painted(view, bounds, w, previous@);
    lemma_paint_idempotent(view, bounds, w, previous@);
    lemma_diff_self(first, w, first.len());
}

/// An input the loop waited for.
#[derive(Debug)]
pub enum Event<Msg> {
    /// A key press from the terminal.
    Key(KeyEvent),
    /// A message from the subscriptions.
    Message(Msg),
    /// Any other terminal input, or a source that ended.
    Other,
}

/// What the loop does with an input.
#[derive(Debug)]
pub enum Step<'a, Msg, Handler> {
    /// Leave the loop and restore the terminal.
    Quit,
    /// Update the model with this message.
    Update(Msg),
    /// Map the key with this handler, the root container's, and update the
    /// model with the message it gives.
    HandleKey(&'a Handler, KeyEvent),
    /// Draw the next frame with the model unchanged.
    Continue,
}

/// The key that ends the loop: `q`, whatever the modifiers.
pub open spec fn is_quit_key(k: KeyEvent) -> bool {
    k.code == KeyCode::Char('q')
}

/// The key handler that the loop consults: the root container's. Handlers
/// of nested containers are not consulted.
pub open spec fn root_handler<H>(view: ViewNode<H>) -> Option<H> {
    match view {
        ViewNode::Container { on_key_press, .. } => on_key_press,
        _ => None,
    }
}

/// Whether `k` is the key that ends the loop.
pub fn quit_key(k: &KeyEvent) -> (r: bool)
    ensures
        r == is_quit_key(*k),
{
    match k.code {
        KeyCode::Char(c) => c == 'q',
        _ => false,
    }
}

/// What the loop does with `event` while `view` is on the screen. The quit
/// key ends the loop whatever the model and the view; another key goes to
/// the root container's handler, if it has one; a subscription message
/// updates the model directly.
pub fn decide<'a, Msg, Handler>(view: &'a ViewNode<Handler>, event: Event<Msg>) -> (r: Step<'a, Msg, Handler>)
    ensures
        event is Key && is_quit_key(event->Key_0) ==> r is Quit,
        event is Key && !is_quit_key(event->Key_0) && root_handler(*view) is Some ==> (r matches Step::HandleKey(
            rh,
            rk,
        ) && root_handler(*view) == Some(*rh) && rk == event->Key_0),
        event is Key && !is_quit_key(event->Key_0) && root_handler(*view) is None ==> r is Continue,
        event is Message ==> (r matches Step::Update(rm) && rm == event->Message_0),
        event is Other ==> r is Continue,
{
    match event {
        Event::Key(k) => {
            if quit_key(&k) {
                Step::Quit
            } else {
                match view {
                    ViewNode::Container { on_key_press: Some(handler), .. } => Step::HandleKey(
                        handler,
                        k,
                    ),
                    _ => Step::Continue,
                }
            }
        },
        Event::Message(m) => Step::Update(m),
        Event::Other => Step::Continue,
    }
}

} // verus!
