//! What the viewer shows, and how a finished decode changes it. A failed
//! decode changes nothing; a successful one replaces the texture and the
//! title, and asks for the view to be recentred exactly when the pixel size
//! of the image changed.
use vstd::prelude::*;

verus! {

/// A decoded image made into a texture, with its pixel size and the name to
/// show for it.
pub struct LoadedTexture<T> {
    pub texture: T,
    pub width: u32,
    pub height: u32,
    pub name: String,
}

/// What applying a decode result did.
#[derive(Debug, Clone, Copy, PartialEq, Eq, Structural)]
pub enum LoadOutcome {
    /// The decode failed: nothing changed.
    Failed,
    /// The new image has the size of the previous one: pan and zoom stay.
    ViewKept,
    /// The size changed: the view is to be reset to 1:1 and centred.
    Recentered,
}

/// The image on screen: its texture (none before the first successful
/// load), its pixel size, and the window title.
pub struct DisplayedImage<T> {
    pub texture: Option<T>,
    pub image_dim: (u32, u32),
    pub title: String,
}

/// The state after applying a decode result (`None` for a failed decode).
pub open spec fn after_load<T>(old: DisplayedImage<T>, result: Option<LoadedTexture<T>>) -> DisplayedImage<T> {
    match result {
        None => old,
        Some(l) => DisplayedImage { texture: Some(l.texture), image_dim: (l.width, l.height), title: l.name },
    }
}

/// The outcome of applying a decode result.
pub open spec fn load_outcome<T>(old: DisplayedImage<T>, result: Option<LoadedTexture<T>>) -> LoadOutcome {
    match result {
        None => LoadOutcome::Failed,
        Some(l) => if (l.width, l.height) != old.image_dim {
            LoadOutcome::Recentered
        } else {
            LoadOutcome::ViewKept
        },
    }
}

impl<T> DisplayedImage<T> {
    /// Nothing shown yet.
    pub fn new() -> (r: DisplayedImage<T>)
        ensures
            r.texture is None,
            r.image_dim == (0u32, 0u32),
            r.title@ == Seq::<char>::empty(),
    {
        DisplayedImage { texture: None, image_dim: (0, 0), title: String::new() }
    }

    /// Applies the result of a decode: `None` for a decode that failed.
    pub fn apply_load(&mut self, result: Option<LoadedTexture<T>>) -> (outcome: LoadOutcome)
        ensures
            *final(self) == after_load(*old(self), result),
            outcome == load_outcome(*old(self), result),
    {
        match result {
            None => LoadOutcome::Failed,
            Some(l) => {
                let same = l.width == self.image_dim.0 && l.height == self.image_dim.1;
                self.texture = Some(l.texture);
                self.image_dim = (l.width, l.height);
                self.title = l.name;
                if same {
                    LoadOutcome::ViewKept
                } else {
                    LoadOutcome::Recentered
                }
            },
        }
    }
}

/// A failed decode leaves the texture, the image size and the title as they were.
pub proof fn lemma_failed_load_keeps_image<T>(shown: DisplayedImage<T>)
    ensures
        after_load(shown, None) == shown,
        load_outcome(shown, None::<LoadedTexture<T>>) == LoadOutcome::Failed,
{
}

/// A successful decode recentres the view exactly when the image's pixel
/// size differs from the one shown before; an image of the same size keeps
/// pan and zoom.
pub proof fn lemma_recenter_on_size_change<T>(shown: DisplayedImage<T>, l: LoadedTexture<T>)
    ensures
        load_outcome(shown, Some(l)) == LoadOutcome::Recentered <==> (l.width, l.height)
            != shown.image_dim,
        load_outcome(shown, Some(l)) == LoadOutcome::ViewKept <==> (l.width, l.height)
            == shown.image_dim,
        after_load(shown, Some(l)).image_dim == (l.width, l.height),
{
}

/// Gating of the render loop: it blocks for input when idle, and draws a
/// frame only after some message changed the view and no further message is
/// waiting.
#[derive(Debug, Clone, Copy, PartialEq, Eq, Structural)]
pub struct FrameGate {
    pub should_draw: bool,
    pub should_block: bool,
    pub should_exit: bool,
    pub frame_number: u32,
}

impl FrameGate {
    /// The first frame is drawn as soon as the loop finds no message waiting.
    pub fn new() -> (r: FrameGate)
        ensures
            r == (FrameGate { should_draw: true, should_block: true, should_exit: false, frame_number: 0 }),
    {
        FrameGate { should_draw: true, should_block: true, should_exit: false, frame_number: 0 }
    }

    /// A message was handled; `changed_view` says whether it changed what is
    /// on screen. The loop then polls rather than blocks.
    pub fn on_message(&mut self, changed_view: bool)
        ensures
            *final(self) == (FrameGate {
                should_draw: old(self).should_draw || changed_view,
                should_block: false,
                ..*old(self)
            }),
    {
        self.should_block = false;
        if changed_view {
            self.should_draw = true;
        }
    }

    /// No message was waiting: the next wait for input may block.
    pub fn on_idle(&mut self)
        ensures
            *final(self) == (FrameGate { should_block: true, ..*old(self) }),
    {
        self.should_block = true;
    }

    /// The viewer is to quit.
    pub fn request_exit(&mut self)
        ensures
            *final(self) == (FrameGate { should_exit: true, ..*old(self) }),
    {
        self.should_exit = true;
    }

    /// A frame is due: something changed and the message queue is drained.
    pub fn ready_to_draw(&self) -> (r: bool)
        ensures
            r == (self.should_draw && self.should_block),
    {
        self.should_draw && self.should_block
    }

    /// A frame was presented; the frame counter wraps around.
    pub fn on_frame_drawn(&mut self)
        ensures
            *final(self) == (FrameGate {
                should_draw: false,
                frame_number: (if old(self).frame_number == u32::MAX {
                    0
                } else {
                    old(self).frame_number + 1
                }) as u32,
                ..*old(self)
            }),
    {
        self.should_draw = false;
        self.frame_number = if self.frame_number == u32::MAX {
            0
        } else {
            self.frame_number + 1
        };
    }
}

} // verus!
