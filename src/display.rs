use vstd::prelude::*;
use crate::layout::PixelLayout;
use crate::raster::{reencoded, EncodedImage, RasterError, RawImage};

verus! {

/// A request to the display server. Resources are named by identifiers that
/// the connection handed out.
#[derive(Debug, Clone, Copy, PartialEq, Eq, Structural)]
pub enum Request {
    /// Hides a window without destroying it.
    UnmapWindow { window: u32 },
    /// A graphics context on `drawable` that generates no exposure events.
    CreateGc { gc: u32, drawable: u32 },
    CreatePixmap { pixmap: u32, depth: u8, drawable: u32, width: u16, height: u16 },
    /// Paints the whole encoded image into `pixmap` at its origin.
    PutImage { pixmap: u32, gc: u32 },
    /// An input-output window at the origin of `parent`, without border,
    /// whose background is `background`.
    CreateWindow { window: u32, depth: u8, parent: u32, width: u16, height: u16, background: u32 },
    ReparentWindow { window: u32, parent: u32, x: i16, y: i16 },
    FreePixmap { pixmap: u32 },
    FreeGc { gc: u32 },
    MapWindow { window: u32 },
    /// Sends every pending request to the server.
    Flush,
}

/// Fresh identifiers for the resources of one showing.
#[derive(Debug, Clone, Copy, PartialEq, Eq)]
pub struct ResourceIds {
    pub gc: u32,
    pub pixmap: u32,
    pub window: u32,
}

/// The screen that the image is painted on.
#[derive(Debug, Clone, Copy, PartialEq, Eq)]
pub struct ScreenRoot {
    pub root: u32,
    pub root_depth: u8,
}

/// An encoded image shown inside a parent window, and the child window that
/// currently shows it, if any.
#[derive(Debug)]
pub struct ImageDisplay {
    pub image: EncodedImage,
    pub parent_window: u32,
    pub window: Option<u32>,
}

/// The requests that paint an image of `width` by `height` into a fresh
/// window and show it inside `parent` at (`x`, `y`).
pub open spec fn paint_requests(
    ids: ResourceIds,
    screen: ScreenRoot,
    parent: u32,
    width: u16,
    height: u16,
    x: i16,
    y: i16,
) -> Seq<Request> {
    seq![
        Request::CreateGc { gc: ids.gc, drawable: screen.root },
        Request::CreatePixmap {
            pixmap: ids.pixmap,
            depth: screen.root_depth,
            drawable: screen.root,
            width,
            height,
        },
        Request::PutImage { pixmap: ids.pixmap, gc: ids.gc },
        Request::CreateWindow {
            window: ids.window,
            depth: screen.root_depth,
            parent: screen.root,
            width,
            height,
            background: ids.pixmap,
        },
        Request::ReparentWindow { window: ids.window, parent, x, y },
        Request::FreePixmap { pixmap: ids.pixmap },
        Request::FreeGc { gc: ids.gc },
        Request::MapWindow { window: ids.window },
        Request::Flush,
    ]
}

pub open spec fn unmap_request(window: u32) -> Request {
    Request::UnmapWindow { window }
}

/// Everything that showing does from the state `shown`: hide the window
/// shown before, if any, then paint and show a fresh one.
pub open spec fn show_requests(
    shown: Option<u32>,
    ids: ResourceIds,
    screen: ScreenRoot,
    parent: u32,
    width: u16,
    height: u16,
    x: i16,
    y: i16,
) -> Seq<Request> {
    let paint = paint_requests(ids, screen, parent, width, height, x, y);
    match shown {
        Some(w) => seq![unmap_request(w)] + paint,
        None => paint,
    }
}

/// The windows that are mapped after `reqs`, starting from `mapped`.
pub open spec fn mapped_after(mapped: Set<u32>, reqs: Seq<Request>) -> Set<u32>
    decreases reqs.len(),
{
    if reqs.len() == 0 {
        mapped
    } else {
        let before = mapped_after(mapped, reqs.drop_last());
        match reqs.last() {
            Request::MapWindow { window } => before.insert(window),
            Request::UnmapWindow { window } => before.remove(window),
            _ => before,
        }
    }
}

/// The windows that the state `shown` has mapped.
pub open spec fn shown_set(shown: Option<u32>) -> Set<u32> {
    match shown {
        Some(w) => set![w],
        None => Set::empty(),
    }
}

impl ImageDisplay {
    /// Re-encodes `image`, whose pixels are `0xRRGGBB`, into the display's
    /// `layout`, to be shown inside `parent_window`; nothing is shown yet.
    pub fn new(image: &RawImage, layout: PixelLayout, parent_window: u32) -> (r: Result<
        ImageDisplay,
        RasterError,
    >)
        requires
            image.wf(),
            layout.wf(),
        ensures
            r is Ok <==> layout.fits(24),
            r matches Ok(d) ==> {
                &&& d.window is None
                &&& d.parent_window == parent_window
                &&& d.image.width == image.width
                &&& d.image.height == image.height
                &&& d.image.data@ == reencoded(image.data@, PixelLayout::rgb888(), layout)
            },
    {
        let source = PixelLayout::rgb();
        match EncodedImage::reencode(image, source, layout) {
            Ok(encoded) => Ok(ImageDisplay { image: encoded, parent_window, window: None }),
            Err(e) => Err(e),
        }
    }

    pub fn is_shown(&self) -> (r: bool)
        ensures
            r == self.window is Some,
    {
        self.window.is_some()
    }

    /// The request that hides the window showing the image; the window
    /// itself is kept. Nothing changes until `record` learns that it went
    /// through.
    pub fn remove(&self) -> (r: Vec<Request>)
        requires
            self.window is Some,
        ensures
            r@ == seq![unmap_request(self.window->Some_0)],
    {
        let window = self.window.unwrap();
        let mut reqs: Vec<Request> = Vec::new();
        reqs.push(Request::UnmapWindow { window });
        reqs
    }

    /// The requests that show the image inside the parent window at pixel
    /// offset (`x`, `y`), in the order they must be issued, hiding first the
    /// window shown before. Nothing changes until `record` learns how many
    /// of them went through.
    pub fn show_at(&self, ids: ResourceIds, screen: ScreenRoot, x: i16, y: i16) -> (r: Vec<
        Request,
    >)
        ensures
            r@ == show_requests(
                self.window,
                ids,
                screen,
                self.parent_window,
                self.image.width,
                self.image.height,
                x,
                y,
            ),
    {
        let mut reqs: Vec<Request> = Vec::new();
        if self.is_shown() {
            reqs = self.remove();
        }
        let (width, height) = (self.image.width, self.image.height);
        reqs.push(Request::CreateGc { gc: ids.gc, drawable: screen.root });
        reqs.push(
            Request::CreatePixmap {
                pixmap: ids.pixmap,
                depth: screen.root_depth,
                drawable: screen.root,
                width,
                height,
            },
        );
        reqs.push(Request::PutImage { pixmap: ids.pixmap, gc: ids.gc });
        reqs.push(
            Request::CreateWindow {
                window: ids.window,
                depth: screen.root_depth,
                parent: screen.root,
                width,
                height,
                background: ids.pixmap,
            },
        );
        reqs.push(
            Request::ReparentWindow { window: ids.window, parent: self.parent_window, x, y },
        );
        reqs.push(Request::FreePixmap { pixmap: ids.pixmap });
        reqs.push(Request::FreeGc { gc: ids.gc });
        reqs.push(Request::MapWindow { window: ids.window });
        reqs.push(Request::Flush);
        assert(reqs@ =~= show_requests(
            self.window,
            ids,
            screen,
            self.parent_window,
            width,
            height,
            x,
            y,
        ));
        reqs
    }
}

/// The shown window after the unmap requests among `reqs`, starting from
/// `shown`: unmapping the shown window leaves none shown.
pub open spec fn hidden_after(shown: Option<u32>, reqs: Seq<Request>) -> Option<u32>
    decreases reqs.len(),
{
    if reqs.len() == 0 {
        shown
    } else {
        let before = hidden_after(shown, reqs.drop_last());
        match reqs.last() {
            Request::UnmapWindow { window } => if before == Some(window) {
                None
            } else {
                before
            },
            _ => before,
        }
    }
}

/// The window that the last map request of `reqs` maps, if any.
pub open spec fn last_mapped(reqs: Seq<Request>) -> Option<u32>
    decreases reqs.len(),
{
    if reqs.len() == 0 {
        None
    } else {
        match reqs.last() {
            Request::MapWindow { window } => Some(window),
            _ => last_mapped(reqs.drop_last()),
        }
    }
}

/// The shown window once the first `done` requests of `plan` went through
/// (and, if `done` is short of the plan, the next one failed): the window
/// that the plan maps when the whole plan went through, otherwise the
/// window shown before unless one of the issued requests unmapped it.
pub open spec fn committed(shown: Option<u32>, plan: Seq<Request>, done: int) -> Option<u32> {
    if done == plan.len() && last_mapped(plan) is Some {
        last_mapped(plan)
    } else {
        hidden_after(shown, plan.subrange(0, done))
    }
}

impl ImageDisplay {
    /// Records the outcome of issuing `plan`, of which the first `done`
    /// requests went through.
    pub fn record(&mut self, plan: &Vec<Request>, done: usize)
        requires
            done <= plan@.len(),
        ensures
            final(self).window == committed(old(self).window, plan@, done as int),
            final(self).image == old(self).image,
            final(self).parent_window == old(self).parent_window,
    {
        let mut shown = self.window;
        let mut mapped: Option<u32> = None;
        let mut i: usize = 0;
        while i < plan.len()
            invariant
                i <= plan@.len(),
                done <= plan@.len(),
                shown == hidden_after(self.window, plan@.subrange(0, if i < done { i as int } else { done as int })),
                mapped == last_mapped(plan@.subrange(0, i as int)),
            decreases plan@.len() - i,
        {
            assert(plan@.subrange(0, i + 1).drop_last() =~= plan@.subrange(0, i as int));
            if i < done {
                match plan[i] {
                    Request::UnmapWindow { window } => {
                        if shown == Some(window) {
                            shown = None;
                        }
                    },
                    _ => {},
                }
            }
            match plan[i] {
                Request::MapWindow { window } => {
                    mapped = Some(window);
                },
                _ => {},
            }
            i = i + 1;
        }
        assert(plan@.subrange(0, plan@.len() as int) =~= plan@);
        if done == plan.len() && mapped.is_some() {
            self.window = mapped;
        } else {
            self.window = shown;
        }
    }
}

proof fn lemma_show_maps_one(
    shown: Option<u32>,
    ids: ResourceIds,
    screen: ScreenRoot,
    parent: u32,
    width: u16,
    height: u16,
    x: i16,
    y: i16,
)
    ensures
        mapped_after(
            shown_set(shown),
            show_requests(shown, ids, screen, parent, width, height, x, y),
        ) == set![ids.window],
{
    let reqs = show_requests(shown, ids, screen, parent, width, height, x, y);
    reveal_with_fuel(mapped_after, 11);
    let hidden = mapped_after(shown_set(shown), reqs.subrange(0, reqs.len() - 9));
    assert(hidden =~= Set::<u32>::empty()) by {
        match shown {
            Some(w) => {
                assert(reqs.subrange(0, 1).drop_last() =~= Seq::<Request>::empty());
            },
            None => {
                assert(reqs.subrange(0, 0) =~= Seq::<Request>::empty());
            },
        }
    }
    let n = reqs.len();
    assert(reqs.drop_last() =~= reqs.subrange(0, n - 1));
    assert(reqs.subrange(0, n - 1).drop_last() =~= reqs.subrange(0, n - 2));
    assert(reqs.subrange(0, n - 2).drop_last() =~= reqs.subrange(0, n - 3));
    assert(reqs.subrange(0, n - 3).drop_last() =~= reqs.subrange(0, n - 4));
    assert(reqs.subrange(0, n - 4).drop_last() =~= reqs.subrange(0, n - 5));
    assert(reqs.subrange(0, n - 5).drop_last() =~= reqs.subrange(0, n - 6));
    assert(reqs.subrange(0, n - 6).drop_last() =~= reqs.subrange(0, n - 7));
    assert(reqs.subrange(0, n - 7).drop_last() =~= reqs.subrange(0, n - 8));
    assert(reqs.subrange(0, n - 8).drop_last() =~= reqs.subrange(0, n - 9));
    assert(mapped_after(shown_set(shown), reqs) =~= set![ids.window]);
}

proof fn lemma_show_commits(
    shown: Option<u32>,
    ids: ResourceIds,
    screen: ScreenRoot,
    parent: u32,
    width: u16,
    height: u16,
    x: i16,
    y: i16,
)
    ensures
        ({
            let reqs = show_requests(shown, ids, screen, parent, width, height, x, y);
            committed(shown, reqs, reqs.len() as int) == Some(ids.window)
        }),
{
    let reqs = show_requests(shown, ids, screen, parent, width, height, x, y);
    reveal_with_fuel(last_mapped, 2);
    assert(reqs.drop_last().last() == (Request::MapWindow { window: ids.window }));
}

/// Showing twice in a row, each time recording that every request went
/// through, leaves exactly one window mapped, the second one, and records it
/// as shown: the second showing first hides the window that the first one
/// mapped.
pub proof fn lemma_show_twice(
    shown: Option<u32>,
    first: ResourceIds,
    second: ResourceIds,
    screen: ScreenRoot,
    parent: u32,
    width: u16,
    height: u16,
    x1: i16,
    y1: i16,
    x2: i16,
    y2: i16,
)
    ensures
        ({
            let once = show_requests(shown, first, screen, parent, width, height, x1, y1);
            let between = committed(shown, once, once.len() as int);
            let twice = show_requests(between, second, screen, parent, width, height, x2, y2);
            &&& between == Some(first.window)
            &&& twice[0] == (Request::UnmapWindow { window: first.window })
            &&& mapped_after(mapped_after(shown_set(shown), once), twice) == set![second.window]
            &&& committed(between, twice, twice.len() as int) == Some(second.window)
        }),
{
    lemma_show_commits(shown, first, screen, parent, width, height, x1, y1);
    lemma_show_commits(Some(first.window), second, screen, parent, width, height, x2, y2);
    lemma_show_maps_one(shown, first, screen, parent, width, height, x1, y1);
    lemma_show_maps_one(Some(first.window), second, screen, parent, width, height, x2, y2);
    assert(shown_set(Some(first.window)) == set![first.window]);
}

proof fn lemma_hidden_after(shown: Option<u32>, reqs: Seq<Request>)
    ensures
        hidden_after(shown, reqs) == shown || hidden_after(shown, reqs) is None,
    decreases reqs.len(),
{
    if reqs.len() > 0 {
        lemma_hidden_after(shown, reqs.drop_last());
    }
}

/// When a request of a plan fails, the recorded window is the one shown
/// before or none: never a window that the plan was creating.
pub proof fn lemma_failed_plan_keeps_old(shown: Option<u32>, plan: Seq<Request>, done: int)
    requires
        0 <= done < plan.len(),
    ensures
        committed(shown, plan, done) == shown || committed(shown, plan, done) is None,
{
    lemma_hidden_after(shown, plan.subrange(0, done));
}

/// The request that frees what `r` creates, for pixmaps and graphics
/// contexts; `r` itself otherwise.
pub open spec fn release_of(r: Request) -> Request {
    match r {
        Request::CreatePixmap { pixmap, .. } => Request::FreePixmap { pixmap },
        Request::CreateGc { gc, .. } => Request::FreeGc { gc },
        _ => r,
    }
}

/// Request `i` of `plan` created a pixmap or graphics context that no
/// request before `done` freed.
pub open spec fn left_over(plan: Seq<Request>, i: int, done: int) -> bool {
    &&& (plan[i] is CreatePixmap || plan[i] is CreateGc)
    &&& !exists|j: int| i < j < done && plan[j] == release_of(plan[i])
}

/// In order, the requests that free what the first `i` requests of `plan`
/// left over once `done` of them were issued.
pub open spec fn releases(plan: Seq<Request>, i: int, done: int) -> Seq<Request>
    decreases i,
{
    if i <= 0 {
        Seq::empty()
    } else if left_over(plan, i - 1, done) {
        releases(plan, i - 1, done).push(release_of(plan[i - 1]))
    } else {
        releases(plan, i - 1, done)
    }
}

fn release(r: Request) -> (out: Request)
    ensures
        out == release_of(r),
{
    match r {
        Request::CreatePixmap { pixmap, .. } => Request::FreePixmap { pixmap },
        Request::CreateGc { gc, .. } => Request::FreeGc { gc },
        _ => r,
    }
}

/// When the first `done` requests of `plan` went through and the next one
/// failed: the requests that free the pixmaps and graphics contexts that
/// were created and not yet freed, in the order of their creation.
pub fn release_after_failure(plan: &Vec<Request>, done: usize) -> (r: Vec<Request>)
    requires
        done <= plan@.len(),
    ensures
        r@ == releases(plan@, done as int, done as int),
{
    let mut out: Vec<Request> = Vec::new();
    let mut i: usize = 0;
    while i < done
        invariant
            i <= done <= plan@.len(),
            out@ == releases(plan@, i as int, done as int),
        decreases done - i,
    {
        let created = plan[i];
        if matches!(created, Request::CreatePixmap { .. }) || matches!(created, Request::CreateGc { .. }) {
            let freed = release(created);
            let mut found = false;
            let mut j: usize = i + 1;
            while j < done
                invariant
                    i < j <= done,
                    done <= plan@.len(),
                    freed == release_of(plan@[i as int]),
                    found <==> exists|k: int| i < k < j && plan@[k] == freed,
                decreases done - j,
            {
                if plan[j] == freed {
                    found = true;
                }
                j = j + 1;
            }
            if !found {
                out.push(freed);
            }
        }
        i = i + 1;
    }
    out
}

} // verus!
