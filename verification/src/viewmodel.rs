//! The presentation caches derived from the application model.
//!
//! The view model keeps display-ready records: one [`MonitorCache`] per
//! monitor (name, raw geometry and normalized preview rect) and one
//! [`WallpaperCache`] per wallpaper (identifier, file name, fitting, and
//! a thumbnail-size field that starts unknown and is filled in as the
//! thumbnail loader completes). Both lists are recomputed wholesale from
//! a snapshot of the model on each relevant model event, never
//! incrementally.
//!
//! Selection follows the monitor list: whenever the list is replaced and
//! non-empty, selection resets to the first monitor; whenever it becomes
//! empty, selection clears, and monitor-dependent panels are disabled.

use vstd::prelude::*;

use crate::event::{notified, EntryView, EventManager, Observable, Subscription};
use crate::geometry::Vec2i;
use crate::layout::{matches_layout, normalize_monitors, PreviewRect};
use crate::model::{Fitting, Monitor, Wallpaper};
use crate::thumbnail::ThumbnailCache;

verus! {

/// An event published by [`ApplicationViewModel`] after it recomputed
/// one of its caches.
#[derive(Clone, Copy, Debug, PartialEq, Eq, Structural)]
pub enum ApplicationViewModelEvent {
    WallpapersUpdated,
    MonitorsUpdated,
}

/// Display-ready record of one monitor.
pub struct MonitorCache {
    pub name: String,
    pub position: Vec2i,
    pub size: Vec2i,
    pub preview_rect: PreviewRect,
}

impl MonitorCache {
    /// Constructs the record of `source` with its normalized preview
    /// rect.
    pub fn new(source: &Monitor, preview_rect: PreviewRect) -> (r: MonitorCache)
        ensures
            r.name@ == source.spec_name(),
            r.position == source.spec_position(),
            r.size == source.spec_size(),
            r.preview_rect == preview_rect,
    {
        MonitorCache {
            name: source.name().to_string(),
            position: source.position(),
            size: source.size(),
            preview_rect,
        }
    }
}

/// Display-ready record of one wallpaper. The thumbnail size starts
/// unknown and is filled in asynchronously by the thumbnail loader.
pub struct WallpaperCache {
    pub uuid: u128,
    pub filename: String,
    pub fitting: Fitting,
    pub size: Option<(u32, u32)>,
}

impl WallpaperCache {
    /// Constructs the record of `source`, with the thumbnail size still
    /// unknown.
    pub fn new(source: &Wallpaper) -> (r: WallpaperCache)
        ensures
            r.uuid == source.spec_id(),
            r.filename@ == source.spec_filename(),
            r.fitting == source.spec_fitting(),
            r.size is None,
    {
        WallpaperCache {
            uuid: source.id(),
            filename: source.filename().to_string(),
            fitting: source.fitting(),
            size: None,
        }
    }
}

/// `r` is the display record of wallpaper `w` whose thumbnail-size field
/// reflects the thumbnail cache `cache`.
pub open spec fn wallpaper_record_of(r: WallpaperCache, w: Wallpaper, cache: ThumbnailCache) -> bool {
    &&& r.uuid == w.spec_id()
    &&& r.filename@ == w.spec_filename()
    &&& r.fitting == w.spec_fitting()
    &&& r.size == (if cache@.contains_key(w.spec_id()) {
        Some(
            (
                cache@[w.spec_id()].spec_original_width(),
                cache@[w.spec_id()].spec_original_height(),
            ),
        )
    } else {
        None::<(u32, u32)>
    })
}

/// The view model: monitor and wallpaper presentation caches, the
/// monitor selection, and the event bus that announces recomputations to
/// the views.
pub struct ApplicationViewModel {
    subscriber_views: EventManager<ApplicationViewModelEvent>,
    monitors: Vec<MonitorCache>,
    wallpapers: Vec<WallpaperCache>,
    selected_monitor_index: Option<usize>,
}

impl ApplicationViewModel {
    pub closed spec fn spec_monitors(&self) -> Seq<MonitorCache> {
        self.monitors@
    }

    pub closed spec fn spec_wallpapers(&self) -> Seq<WallpaperCache> {
        self.wallpapers@
    }

    pub closed spec fn spec_selected(&self) -> Option<usize> {
        self.selected_monitor_index
    }

    /// Refers to the monitor display records.
    pub fn monitors(&self) -> (r: &[MonitorCache])
        ensures
            r@ == self.spec_monitors(),
    {
        self.monitors.as_slice()
    }

    /// Refers to the wallpaper display records.
    pub fn wallpapers(&self) -> (r: &[WallpaperCache])
        ensures
            r@ == self.spec_wallpapers(),
    {
        self.wallpapers.as_slice()
    }

    /// The selected monitor, if any monitor exists; `None` disables all
    /// monitor-dependent panels.
    pub fn selected_monitor_index(&self) -> (r: Option<usize>)
        ensures
            r == self.spec_selected(),
    {
        self.selected_monitor_index
    }
    /// Constructs a new, empty view model.
    pub fn new() -> (r: ApplicationViewModel)
        ensures
            r.bus_wf(),
            r.bus_unsaturated(),
            r.bus() == Seq::<EntryView<ApplicationViewModelEvent>>::empty(),
            r.spec_monitors() == Seq::<MonitorCache>::empty(),
            r.spec_wallpapers() == Seq::<WallpaperCache>::empty(),
            r.spec_selected() is None,
    {
        ApplicationViewModel {
            subscriber_views: EventManager::new(),
            monitors: Vec::new(),
            wallpapers: Vec::new(),
            selected_monitor_index: None,
        }
    }

    /// Recomputes the monitor cache from a snapshot of the model's
    /// monitor list: one record per monitor with its normalized preview
    /// rect, selection reset to the first monitor — or cleared when the
    /// snapshot is empty, in which case no recomputation event is
    /// published.
    pub fn update_monitors(&mut self, snapshot: &Vec<Monitor>)
        requires
            old(self).bus_wf(),
            forall|i: int| 0 <= i < snapshot@.len() ==> (#[trigger] snapshot@[i]).wf(),
        ensures
            final(self).bus_wf(),
            final(self).bus_unsaturated() == old(self).bus_unsaturated(),
            final(self).spec_monitors().len() == snapshot@.len(),
            forall|i: int|
                0 <= i < snapshot@.len() ==> {
                    let c = #[trigger] final(self).spec_monitors()[i];
                    &&& c.name@ == snapshot@[i].spec_name()
                    &&& c.position == snapshot@[i].spec_position()
                    &&& c.size == snapshot@[i].spec_size()
                    &&& matches_layout(c.preview_rect, snapshot@, snapshot@[i])
                },
            final(self).spec_wallpapers() == old(self).spec_wallpapers(),
            final(self).spec_selected() == (if snapshot@.len() == 0 {
                None
            } else {
                Some(0usize)
            }),
            snapshot@.len() > 0 ==> notified(
                old(self).bus(),
                final(self).bus(),
                ApplicationViewModelEvent::MonitorsUpdated,
            ),
            snapshot@.len() == 0 ==> final(self).bus() == old(self).bus(),
    {
        self.monitors = Vec::new();
        let n = snapshot.len();
        if n == 0 {
            self.selected_monitor_index = None;
            return ;
        }
        let rects = normalize_monitors(snapshot);
        let mut i: usize = 0;
        while i < n
            invariant
                i <= n,
                n == snapshot@.len(),
                rects@.len() == n,
                forall|j: int| 0 <= j < n ==> (#[trigger] snapshot@[j]).wf(),
                forall|j: int|
                    0 <= j < n ==> matches_layout(#[trigger] rects@[j], snapshot@, snapshot@[j]),
                self.monitors@.len() == i,
                forall|j: int|
                    0 <= j < i ==> {
                        let c = #[trigger] self.monitors@[j];
                        &&& c.name@ == snapshot@[j].spec_name()
                        &&& c.position == snapshot@[j].spec_position()
                        &&& c.size == snapshot@[j].spec_size()
                        &&& matches_layout(c.preview_rect, snapshot@, snapshot@[j])
                    },
                self.wallpapers@ == old(self).spec_wallpapers(),
                self.subscriber_views == old(self).subscriber_views,
            decreases n - i,
        {
            self.monitors.push(MonitorCache::new(&snapshot[i], rects[i]));
            i += 1;
        }
        self.selected_monitor_index = Some(0);
        self.subscriber_views.notify(ApplicationViewModelEvent::MonitorsUpdated);
    }

    /// Rebuilds the wallpaper display list from a snapshot of the
    /// model's wallpaper list, filling each record's thumbnail size from
    /// the cache where one is already present, and publishes the
    /// recomputation.
    pub fn update_wallpapers(&mut self, snapshot: &Vec<Wallpaper>, cache: &ThumbnailCache)
        requires
            old(self).bus_wf(),
        ensures
            final(self).bus_wf(),
            final(self).bus_unsaturated() == old(self).bus_unsaturated(),
            final(self).spec_wallpapers().len() == snapshot@.len(),
            forall|i: int|
                0 <= i < snapshot@.len() ==> wallpaper_record_of(
                    #[trigger] final(self).spec_wallpapers()[i],
                    snapshot@[i],
                    *cache,
                ),
            final(self).spec_monitors() == old(self).spec_monitors(),
            final(self).spec_selected() == old(self).spec_selected(),
            notified(
                old(self).bus(),
                final(self).bus(),
                ApplicationViewModelEvent::WallpapersUpdated,
            ),
    {
        self.wallpapers = Vec::new();
        let n = snapshot.len();
        let mut i: usize = 0;
        while i < n
            invariant
                i <= n,
                n == snapshot@.len(),
                self.wallpapers@.len() == i,
                forall|j: int|
                    0 <= j < i ==> wallpaper_record_of(
                        #[trigger] self.wallpapers@[j],
                        snapshot@[j],
                        *cache,
                    ),
                self.monitors@ == old(self).spec_monitors(),
                self.selected_monitor_index == old(self).spec_selected(),
                self.subscriber_views == old(self).subscriber_views,
            decreases n - i,
        {
            let source = &snapshot[i];
            let mut record = WallpaperCache::new(source);
            match cache.get(source.id()) {
                Some(t) => {
                    let size = t.original_size();
                    record.size = Some(size);
                },
                None => {
                },
            }
            self.wallpapers.push(record);
            i += 1;
        }
        self.subscriber_views.notify(ApplicationViewModelEvent::WallpapersUpdated);
    }

    /// Records the original pixel dimensions of a freshly loaded
    /// thumbnail on every display record of the wallpaper with this
    /// identifier. The record is re-resolved by identifier, not by
    /// position: a concurrent reorder or removal cannot misdirect the
    /// write.
    pub fn set_wallpaper_size(&mut self, id: u128, width: u32, height: u32)
        ensures
            final(self).spec_wallpapers().len() == old(self).spec_wallpapers().len(),
            forall|k: int|
                0 <= k < old(self).spec_wallpapers().len() ==> {
                    let pre = old(self).spec_wallpapers()[k];
                    #[trigger] final(self).spec_wallpapers()[k] == if pre.uuid == id {
                        WallpaperCache {
                            uuid: pre.uuid,
                            filename: pre.filename,
                            fitting: pre.fitting,
                            size: Some((width, height)),
                        }
                    } else {
                        pre
                    }
                },
            final(self).spec_monitors() == old(self).spec_monitors(),
            final(self).spec_selected() == old(self).spec_selected(),
            final(self).bus() == old(self).bus(),
            final(self).bus_unsaturated() == old(self).bus_unsaturated(),
            final(self).bus_wf() == old(self).bus_wf(),
    {
        let n = self.wallpapers.len();
        let mut k: usize = 0;
        while k < n
            invariant
                k <= n,
                n == self.wallpapers@.len(),
                self.wallpapers@.len() == old(self).spec_wallpapers().len(),
                forall|j: int|
                    0 <= j < old(self).spec_wallpapers().len() ==> {
                        let pre = old(self).spec_wallpapers()[j];
                        #[trigger] self.wallpapers@[j] == if pre.uuid == id && j < k {
                            WallpaperCache {
                                uuid: pre.uuid,
                                filename: pre.filename,
                                fitting: pre.fitting,
                                size: Some((width, height)),
                            }
                        } else {
                            pre
                        }
                    },
                self.monitors@ == old(self).spec_monitors(),
                self.selected_monitor_index == old(self).spec_selected(),
                self.subscriber_views == old(self).subscriber_views,
            decreases n - k,
        {
            if self.wallpapers[k].uuid == id {
                let record = &mut self.wallpapers[k];
                record.size = Some((width, height));
            }
            k += 1;
        }
    }
}

impl Observable for ApplicationViewModel {
    type Message = ApplicationViewModelEvent;

    closed spec fn bus(&self) -> Seq<EntryView<ApplicationViewModelEvent>> {
        self.subscriber_views@
    }

    closed spec fn bus_wf(&self) -> bool {
        self.subscriber_views.wf()
    }

    closed spec fn bus_unsaturated(&self) -> bool {
        self.subscriber_views.spec_next_id() < u64::MAX
    }

    open spec fn only_bus_changed(pre: &ApplicationViewModel, post: &ApplicationViewModel) -> bool {
        &&& post.spec_monitors() == pre.spec_monitors()
        &&& post.spec_wallpapers() == pre.spec_wallpapers()
        &&& post.spec_selected() == pre.spec_selected()
    }

    fn subscribe(&mut self) -> (r: Subscription) {
        self.subscriber_views.subscribe()
    }

    fn unsubscribe(&mut self, sub: Subscription) {
        self.subscriber_views.unsubscribe(sub)
    }

    fn notify(&mut self, message: ApplicationViewModelEvent) {
        self.subscriber_views.notify(message)
    }

    fn take_messages(&mut self, sub: &Subscription) -> (msgs: Vec<ApplicationViewModelEvent>) {
        self.subscriber_views.take_messages(sub)
    }
}

} // verus!
