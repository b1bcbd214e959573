//! The application model: wallpapers, monitors and the operations on them.

use vstd::prelude::*;

use crate::event::{notified, EntryView, EventManager, Observable, Subscription};
use crate::geometry::Vec2i;

verus! {

/// The positioning strategy for a wallpaper on a monitor.
#[derive(Clone, Copy, Debug, PartialEq, Eq, PartialOrd, Ord, Structural)]
pub enum Fitting {
    /// Not scaled, placed in the center.
    Center,
    /// Not scaled, tiled.
    Tile,
    /// Scaled to fill the monitor; the aspect ratio may change.
    Stretch,
    /// Scaled so the whole image is contained in the monitor.
    Contain,
    /// Scaled so the whole monitor is covered by the image.
    Cover,
}

/// Relies on `uuid::Uuid::new_v4` for a freshly generated random
/// identifier, returned as its 128-bit value. The value is random, so
/// nothing is promised of it.
#[verifier::external_body]
fn fresh_uuid() -> u128 {
    uuid::Uuid::new_v4().as_u128()
}

/// An item of the wallpaper list: a generated identifier, the path of the
/// image file, and the fitting strategy.
#[derive(Clone, Debug, PartialEq, Eq)]
pub struct Wallpaper {
    uuid: u128,
    filename: String,
    fitting: Fitting,
}

impl Wallpaper {
    /// The identifier assigned at creation, stable for the object's lifetime.
    pub closed spec fn spec_id(&self) -> u128 {
        self.uuid
    }

    pub closed spec fn spec_filename(&self) -> Seq<char> {
        self.filename@
    }

    pub closed spec fn spec_fitting(&self) -> Fitting {
        self.fitting
    }

    /// Constructs a new instance with a generated identifier.
    pub fn new(filename: String, fitting: Fitting) -> (r: Wallpaper)
        ensures
            r.spec_filename() == filename@,
            r.spec_fitting() == fitting,
    {
        Wallpaper { uuid: fresh_uuid(), filename, fitting }
    }

    /// Gets the assigned identifier.
    pub fn id(&self) -> (r: u128)
        ensures
            r == self.spec_id(),
    {
        self.uuid
    }

    /// Gets the image file path.
    pub fn filename(&self) -> (r: &str)
        ensures
            r@ == self.spec_filename(),
    {
        self.filename.as_str()
    }

    /// Gets the fitting strategy.
    pub fn fitting(&self) -> (r: Fitting)
        ensures
            r == self.spec_fitting(),
    {
        self.fitting
    }

    /// Sets a new fitting strategy, leaving identifier and path unchanged.
    pub fn set_fitting(&mut self, fitting: Fitting)
        ensures
            final(self).spec_id() == old(self).spec_id(),
            final(self).spec_filename() == old(self).spec_filename(),
            final(self).spec_fitting() == fitting,
    {
        self.fitting = fitting;
    }
}

/// The platform-specific monitor identifier: a wide string, including its
/// terminating NUL unit, as the OS reports it. Opaque to the model; only
/// equality and hand-off to the OS matter.
#[derive(Clone, Debug, PartialEq, Eq, Hash)]
pub struct MonitorId {
    units: Vec<u16>,
}

impl MonitorId {
    pub closed spec fn spec_units(&self) -> Seq<u16> {
        self.units@
    }

    pub fn new(units: Vec<u16>) -> (r: MonitorId)
        ensures
            r.spec_units() == units@,
    {
        MonitorId { units }
    }

    /// The raw UTF-16 units of the identifier, including the NUL.
    pub fn units(&self) -> (r: &Vec<u16>)
        ensures
            r@ == self.spec_units(),
    {
        &self.units
    }
}

/// A connected monitor: identifier, display name, top-left position and
/// physical size in pixels. Replaced wholesale whenever the monitor
/// topology changes.
#[derive(Clone, Debug)]
pub struct Monitor {
    id: MonitorId,
    name: String,
    position: Vec2i,
    size: Vec2i,
}

impl Monitor {
    pub closed spec fn spec_id(&self) -> MonitorId {
        self.id
    }

    pub closed spec fn spec_name(&self) -> Seq<char> {
        self.name@
    }

    pub closed spec fn spec_position(&self) -> Vec2i {
        self.position
    }

    pub closed spec fn spec_size(&self) -> Vec2i {
        self.size
    }

    /// A monitor is well formed when its physical size is positive on both
    /// axes.
    pub open spec fn wf(&self) -> bool {
        0 < self.spec_size().x && 0 < self.spec_size().y
    }

    pub fn new(id: MonitorId, name: String, position: Vec2i, size: Vec2i) -> (r: Monitor)
        requires
            0 < size.x,
            0 < size.y,
        ensures
            r.spec_id() == id,
            r.spec_name() == name@,
            r.spec_position() == position,
            r.spec_size() == size,
            r.wf(),
    {
        Monitor { id, name, position, size }
    }

    /// Gets the monitor identifier.
    pub fn id(&self) -> (r: &MonitorId)
        ensures
            *r == self.spec_id(),
    {
        &self.id
    }

    /// Gets the monitor name.
    pub fn name(&self) -> (r: &str)
        ensures
            r@ == self.spec_name(),
    {
        self.name.as_str()
    }

    /// Gets the top-left monitor position.
    pub fn position(&self) -> (r: Vec2i)
        ensures
            r == self.spec_position(),
    {
        self.position
    }

    /// Gets the physical monitor size.
    pub fn size(&self) -> (r: Vec2i)
        ensures
            r == self.spec_size(),
    {
        self.size
    }
}

/// An event published by [`Application`] whenever one of its lists may
/// have changed.
#[derive(Clone, Copy, Debug, PartialEq, Eq, Structural)]
pub enum ApplicationEvent {
    MonitorsUpdated,
    WallpapersUpdated,
}

/// An action on the wallpaper list, addressed by index.
#[derive(Clone, Copy, Debug, PartialEq, Eq, Structural)]
pub enum WallpaperListOperation {
    /// Removes this item.
    Remove,
    /// Moves it one position up; silently ignored at the first index.
    MoveUp,
    /// Moves it one position down; silently ignored at the last index.
    MoveDown,
    /// Sets a new `Fitting` for this item.
    SetFitting(Fitting),
}

/// `v` is `w` with its fitting strategy replaced by `f`.
pub open spec fn with_fitting(w: Wallpaper, v: Wallpaper, f: Fitting) -> bool {
    &&& v.spec_id() == w.spec_id()
    &&& v.spec_filename() == w.spec_filename()
    &&& v.spec_fitting() == f
}

/// The wallpaper-list transition of one `update_wallpaper(index, op)`
/// call: `post` is `pre` with `op` applied at `index`. A `MoveUp` at the
/// first index and a `MoveDown` at the last are no-ops.
pub open spec fn wallpapers_updated(
    pre: Seq<Wallpaper>,
    post: Seq<Wallpaper>,
    index: int,
    op: WallpaperListOperation,
) -> bool {
    match op {
        WallpaperListOperation::Remove => post == pre.remove(index),
        WallpaperListOperation::MoveUp => post == if index > 0 {
            pre.update(index, pre[index - 1]).update(index - 1, pre[index])
        } else {
            pre
        },
        WallpaperListOperation::MoveDown => post == if index + 1 < pre.len() {
            pre.update(index, pre[index + 1]).update(index + 1, pre[index])
        } else {
            pre
        },
        WallpaperListOperation::SetFitting(f) => {
            &&& post.len() == pre.len()
            &&& with_fitting(pre[index], post[index], f)
            &&& forall|k: int| 0 <= k < pre.len() && k != index ==> post[k] == pre[k]
        },
    }
}

/// The application model: the canonical ordered monitor and wallpaper
/// lists, and the event bus that announces their changes.
pub struct Application {
    subscribers: EventManager<ApplicationEvent>,
    monitors: Vec<Monitor>,
    wallpapers: Vec<Wallpaper>,
}

impl Application {
    pub closed spec fn spec_monitors(&self) -> Seq<Monitor> {
        self.monitors@
    }

    pub closed spec fn spec_wallpapers(&self) -> Seq<Wallpaper> {
        self.wallpapers@
    }

    /// The subscriber registry is well formed, and every stored monitor
    /// is.
    pub open spec fn wf(&self) -> bool {
        &&& self.bus_wf()
        &&& forall|i: int|
            0 <= i < self.spec_monitors().len() ==> (#[trigger] self.spec_monitors()[i]).wf()
    }

    /// Constructs a new, empty model.
    pub fn new() -> (r: Application)
        ensures
            r.wf(),
            r.bus_unsaturated(),
            r.spec_monitors() == Seq::<Monitor>::empty(),
            r.spec_wallpapers() == Seq::<Wallpaper>::empty(),
            r.bus() == Seq::<EntryView<ApplicationEvent>>::empty(),
    {
        Application {
            subscribers: EventManager::new(),
            monitors: Vec::new(),
            wallpapers: Vec::new(),
        }
    }

    /// Refers to the monitors.
    pub fn monitors(&self) -> (r: &[Monitor])
        ensures
            r@ == self.spec_monitors(),
    {
        self.monitors.as_slice()
    }

    /// Refers to the wallpapers.
    pub fn wallpapers(&self) -> (r: &[Wallpaper])
        ensures
            r@ == self.spec_wallpapers(),
    {
        self.wallpapers.as_slice()
    }

    /// Replaces the monitor list wholesale and publishes
    /// `MonitorsUpdated`.
    pub fn set_monitors(&mut self, monitors: Vec<Monitor>)
        requires
            old(self).wf(),
            forall|i: int| 0 <= i < monitors@.len() ==> (#[trigger] monitors@[i]).wf(),
        ensures
            final(self).wf(),
            final(self).spec_monitors() == monitors@,
            final(self).spec_wallpapers() == old(self).spec_wallpapers(),
            notified(old(self).bus(), final(self).bus(), ApplicationEvent::MonitorsUpdated),
            final(self).bus_unsaturated() == old(self).bus_unsaturated(),
    {
        self.monitors = monitors;
        self.subscribers.notify(ApplicationEvent::MonitorsUpdated);
    }

    /// Appends a new wallpaper at the end of the list and publishes
    /// `WallpapersUpdated`.
    pub fn add_wallpaper(&mut self, wallpaper: Wallpaper)
        requires
            old(self).wf(),
        ensures
            final(self).wf(),
            final(self).spec_monitors() == old(self).spec_monitors(),
            final(self).spec_wallpapers() == old(self).spec_wallpapers().push(wallpaper),
            notified(old(self).bus(), final(self).bus(), ApplicationEvent::WallpapersUpdated),
            final(self).bus_unsaturated() == old(self).bus_unsaturated(),
    {
        self.wallpapers.push(wallpaper);
        self.subscribers.notify(ApplicationEvent::WallpapersUpdated);
        proof {
            assert forall|i: int| 0 <= i < self.spec_monitors().len() implies (
            #[trigger] self.spec_monitors()[i]).wf() by {
                assert(self.spec_monitors()[i] == old(self).spec_monitors()[i]);
            }
        }
    }

    /// Performs one operation on the wallpaper at `index` and publishes
    /// `WallpapersUpdated` — also on the boundary no-ops, so subscribers
    /// must treat the event as "the list may have changed".
    ///
    /// Out-of-range indices for `Remove`, `SetFitting` and a `MoveUp`
    /// not at the first index are excluded by precondition: the callers
    /// address items the user can see.
    pub fn update_wallpaper(&mut self, index: usize, op: WallpaperListOperation)
        requires
            old(self).wf(),
            op is Remove ==> index < old(self).spec_wallpapers().len(),
            op is SetFitting ==> index < old(self).spec_wallpapers().len(),
            op is MoveUp ==> index == 0 || index < old(self).spec_wallpapers().len(),
        ensures
            final(self).wf(),
            final(self).spec_monitors() == old(self).spec_monitors(),
            wallpapers_updated(
                old(self).spec_wallpapers(),
                final(self).spec_wallpapers(),
                index as int,
                op,
            ),
            notified(old(self).bus(), final(self).bus(), ApplicationEvent::WallpapersUpdated),
            final(self).bus_unsaturated() == old(self).bus_unsaturated(),
    {
        let ghost pre = self.wallpapers@;
        match op {
            WallpaperListOperation::Remove => {
                self.wallpapers.remove(index);
            },
            WallpaperListOperation::MoveUp => {
                if index > 0 {
                    let w = self.wallpapers.remove(index);
                    self.wallpapers.insert(index - 1, w);
                    proof {
                        assert(self.wallpapers@ =~= pre.update(
                            index as int,
                            pre[index as int - 1],
                        ).update(index as int - 1, pre[index as int]));
                    }
                }
            },
            WallpaperListOperation::MoveDown => {
                if index < self.wallpapers.len() && index + 1 < self.wallpapers.len() {
                    let w = self.wallpapers.remove(index);
                    self.wallpapers.insert(index + 1, w);
                    proof {
                        assert(self.wallpapers@ =~= pre.update(
                            index as int,
                            pre[index as int + 1],
                        ).update(index as int + 1, pre[index as int]));
                    }
                }
            },
            WallpaperListOperation::SetFitting(f) => {
                let w = &mut self.wallpapers[index];
                w.set_fitting(f);
            },
        }
        self.subscribers.notify(ApplicationEvent::WallpapersUpdated);
        proof {
            assert forall|i: int| 0 <= i < self.spec_monitors().len() implies (
            #[trigger] self.spec_monitors()[i]).wf() by {
                assert(self.spec_monitors()[i] == old(self).spec_monitors()[i]);
            }
        }
    }

    /// Resolves the request for the OS wallpaper-setting collaborator:
    /// the platform identifier of the addressed monitor and the path of
    /// the addressed wallpaper. The collaborator call itself is platform
    /// work done by the embedding shell; it neither mutates this model
    /// nor publishes an event.
    pub fn apply_wallpaper_for_monitor(
        &self,
        monitor_index: usize,
        wallpaper_index: usize,
    ) -> (r: (&MonitorId, &str))
        requires
            monitor_index < self.spec_monitors().len(),
            wallpaper_index < self.spec_wallpapers().len(),
        ensures
            *r.0 == self.spec_monitors()[monitor_index as int].spec_id(),
            r.1@ == self.spec_wallpapers()[wallpaper_index as int].spec_filename(),
    {
        (self.monitors[monitor_index].id(), self.wallpapers[wallpaper_index].filename())
    }
}

impl Observable for Application {
    type Message = ApplicationEvent;

    closed spec fn bus(&self) -> Seq<EntryView<ApplicationEvent>> {
        self.subscribers@
    }

    closed spec fn bus_wf(&self) -> bool {
        self.subscribers.wf()
    }

    closed spec fn bus_unsaturated(&self) -> bool {
        self.subscribers.spec_next_id() < u64::MAX
    }

    open spec fn only_bus_changed(pre: &Application, post: &Application) -> bool {
        &&& post.spec_monitors() == pre.spec_monitors()
        &&& post.spec_wallpapers() == pre.spec_wallpapers()
    }

    fn subscribe(&mut self) -> (r: Subscription) {
        self.subscribers.subscribe()
    }

    fn unsubscribe(&mut self, sub: Subscription) {
        self.subscribers.unsubscribe(sub)
    }

    fn notify(&mut self, message: ApplicationEvent) {
        self.subscribers.notify(message)
    }

    fn take_messages(&mut self, sub: &Subscription) -> (msgs: Vec<ApplicationEvent>) {
        self.subscribers.take_messages(sub)
    }
}

/// Law: a `MoveUp` at the first index leaves the list unchanged.
pub proof fn lemma_move_up_first_is_noop(pre: Seq<Wallpaper>, post: Seq<Wallpaper>)
    requires
        wallpapers_updated(pre, post, 0, WallpaperListOperation::MoveUp),
    ensures
        post == pre,
{
}

/// Law: a `MoveDown` at the last index leaves the list unchanged.
pub proof fn lemma_move_down_last_is_noop(pre: Seq<Wallpaper>, post: Seq<Wallpaper>)
    requires
        pre.len() > 0,
        wallpapers_updated(pre, post, pre.len() - 1, WallpaperListOperation::MoveDown),
    ensures
        post == pre,
{
}

/// Law: for a list of at least two items, a `MoveUp` of the item at
/// `index` followed by a `MoveDown` of the same item (now one position
/// higher) restores the original order.
pub proof fn lemma_move_up_then_down_restores(
    s0: Seq<Wallpaper>,
    s1: Seq<Wallpaper>,
    s2: Seq<Wallpaper>,
    index: int,
)
    requires
        0 < index < s0.len(),
        wallpapers_updated(s0, s1, index, WallpaperListOperation::MoveUp),
        wallpapers_updated(s1, s2, index - 1, WallpaperListOperation::MoveDown),
    ensures
        s2 == s0,
{
    assert(s2 =~= s0);
}

/// Law: a `Remove` at `index` shortens the list by one and preserves the
/// relative order of all other items.
pub proof fn lemma_remove_preserves_order(pre: Seq<Wallpaper>, post: Seq<Wallpaper>, index: int)
    requires
        0 <= index < pre.len(),
        wallpapers_updated(pre, post, index, WallpaperListOperation::Remove),
    ensures
        post.len() == pre.len() - 1,
        forall|k: int| 0 <= k < index ==> post[k] == pre[k],
        forall|k: int| index <= k < post.len() ==> post[k] == pre[k + 1],
{
}

} // verus!
