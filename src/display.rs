use vstd::prelude::*;

use crate::audio::{ConnectionState, PulseaudioEvent, SinkInfo};
use crate::events::{same_text, Event};

verus! {

/// The longest window title shown whole, in characters.
pub const MAX_TITLE_CHARS: usize = 60;

/// A window title as the bar shows it: a title longer than
/// `MAX_TITLE_CHARS` characters keeps the ones before the last of those, and
/// is marked with `...`.
pub open spec fn title_label(title: Seq<char>) -> Seq<char> {
    if title.len() > MAX_TITLE_CHARS {
        title.subrange(0, MAX_TITLE_CHARS - 1) + "..."@
    } else {
        title
    }
}

/// The label of the active window's title.
pub fn window_name(title: &str) -> (r: String)
    ensures
        r@ == title_label(title@),
{
    let n = title.unicode_len();
    if n > MAX_TITLE_CHARS {
        let mut r = String::from_str(title.substring_char(0, MAX_TITLE_CHARS - 1));
        r.append("...");
        r
    } else {
        String::from_str(title)
    }
}

/// The sink that the sound indicator follows after `event`: the new default
/// sink; a sink update for the followed sink, or any sink update while none
/// is followed; nothing once the connection is down.
pub open spec fn tracked_sink(active: Option<SinkInfo>, event: PulseaudioEvent) -> Option<SinkInfo> {
    match event {
        PulseaudioEvent::DefaultSinkChanged(s) => Some(s),
        PulseaudioEvent::SinkUpdate { op, sink_info } => match active {
            None => Some(sink_info),
            Some(a) => if a.index == sink_info.index {
                Some(sink_info)
            } else {
                Some(a)
            },
        },
        PulseaudioEvent::StateChange(s) => if s == ConnectionState::Failed || s
            == ConnectionState::Terminated {
            None
        } else {
            active
        },
    }
}

/// Replaces the followed sink's snapshot wholesale as events come in.
pub fn track_active_sink(active: Option<SinkInfo>, event: PulseaudioEvent) -> (r: Option<SinkInfo>)
    ensures
        r == tracked_sink(active, event),
{
    match event {
        PulseaudioEvent::DefaultSinkChanged(s) => Some(s),
        PulseaudioEvent::SinkUpdate { op, sink_info } => match active {
            None => Some(sink_info),
            Some(a) => if a.index == sink_info.index {
                Some(sink_info)
            } else {
                Some(a)
            },
        },
        PulseaudioEvent::StateChange(s) => match s {
            ConnectionState::Failed | ConnectionState::Terminated => None,
            _ => active,
        },
    }
}

/// What a window-manager event changes on the bar.
#[derive(Clone, Debug, PartialEq, Eq)]
pub enum BarUpdate {
    Layout { layout: String },
    ActiveWindow { class: String, title: String },
    ActivateWorkspace { id: usize },
    CreateWorkspace { id: usize, name: String },
    DestroyWorkspace { id: usize },
}

/// The change an event makes on the bar; fullscreen and rename events make
/// none.
pub open spec fn bar_update_of(event: Event) -> Option<BarUpdate> {
    match event {
        Event::ActiveLayout { name, layout } => Some(BarUpdate::Layout { layout }),
        Event::ActiveWindow { class, title } => Some(BarUpdate::ActiveWindow { class, title }),
        Event::WorkspaceV2 { id, name } => Some(BarUpdate::ActivateWorkspace { id }),
        Event::CreateWorkspaceV2 { id, name } => Some(BarUpdate::CreateWorkspace { id, name }),
        Event::DestroyWorkspaceV2 { id, name } => Some(BarUpdate::DestroyWorkspace { id }),
        Event::Fullscreen { status } => None,
        Event::RenameWorkspace { id, new_name } => None,
    }
}

/// Routes a window-manager event to the widget it concerns.
pub fn bar_update(event: Event) -> (r: Option<BarUpdate>)
    ensures
        r == bar_update_of(event),
{
    match event {
        Event::ActiveLayout { name, layout } => Some(BarUpdate::Layout { layout }),
        Event::ActiveWindow { class, title } => Some(BarUpdate::ActiveWindow { class, title }),
        Event::WorkspaceV2 { id, name } => Some(BarUpdate::ActivateWorkspace { id }),
        Event::CreateWorkspaceV2 { id, name } => Some(BarUpdate::CreateWorkspace { id, name }),
        Event::DestroyWorkspaceV2 { id, name } => Some(BarUpdate::DestroyWorkspace { id }),
        Event::Fullscreen { status } => None,
        Event::RenameWorkspace { id, new_name } => None,
    }
}

/// The icon of the sound indicator.
#[derive(Clone, Copy, Debug, PartialEq, Eq, Structural)]
pub enum SoundIcon {
    Low,
    Medium,
    High,
    Muted,
    Bluetooth,
    BluetoothMuted,
}

/// The raw volume of a sink at 100%.
pub const VOLUME_NORMAL: u32 = 0x10000;

pub open spec fn volume_sum(v: Seq<u32>) -> nat
    decreases v.len(),
{
    if v.len() == 0 {
        0
    } else {
        volume_sum(v.drop_last()) + v.last() as nat
    }
}

/// The mean of the channel volumes, rounded down; 0 without channels.
pub open spec fn mean_volume(v: Seq<u32>) -> nat {
    if v.len() == 0 {
        0
    } else {
        volume_sum(v) / v.len()
    }
}

/// The sink's name marks it as a Bluetooth device.
pub open spec fn is_bluetooth_name(name: Seq<char>) -> bool {
    name.len() >= 6 && name.subrange(0, 6) == "bluez_"@
}

/// The icon for a sink: Bluetooth ones by their mute flag alone, others
/// muted or by their mean volume, rounded to the nearest of three levels
/// between 0% and 100% (louder stays at the top level).
pub open spec fn sound_icon_of(name: Option<Seq<char>>, mute: bool, mean: nat) -> SoundIcon {
    if name matches Some(n) && is_bluetooth_name(n) {
        if mute {
            SoundIcon::BluetoothMuted
        } else {
            SoundIcon::Bluetooth
        }
    } else if mute {
        SoundIcon::Muted
    } else {
        let level = (2 * mean + VOLUME_NORMAL / 2) as int / (VOLUME_NORMAL as int);
        if level == 0 {
            SoundIcon::Low
        } else if level == 1 {
            SoundIcon::Medium
        } else {
            SoundIcon::High
        }
    }
}

/// The mean of a sink's channel volumes.
pub fn average_volume(volume: &Vec<u32>) -> (r: u32)
    ensures
        r == mean_volume(volume@),
{
    let n = volume.len();
    if n == 0 {
        return 0;
    }
    let mut sum: u128 = 0;
    let mut i: usize = 0;
    while i < n
        invariant
            n == volume@.len(),
            i <= n,
            sum == volume_sum(volume@.subrange(0, i as int)),
            sum <= i * 0xffff_ffffu128,
        decreases n - i,
    {
        assert(volume@.subrange(0, i + 1).drop_last() =~= volume@.subrange(0, i as int));
        assert(sum + volume[i as int] <= (i + 1) * 0xffff_ffffu128) by (nonlinear_arith)
            requires
                sum <= i * 0xffff_ffffu128,
                volume[i as int] <= 0xffff_ffffu32,
        ;
        assert((i + 1) * 0xffff_ffffu128 <= 0x1_0000_0000_0000_0000u128 * 0xffff_ffffu128) by (
        nonlinear_arith)
            requires
                i < n,
                n <= usize::MAX,
        ;
        sum = sum + volume[i] as u128;
        i = i + 1;
    }
    assert(volume@.subrange(0, n as int) =~= volume@);
    assert(sum / (n as u128) <= 0xffff_ffffu128) by (nonlinear_arith)
        requires
            sum <= n * 0xffff_ffffu128,
            n > 0,
    ;
    (sum / (n as u128)) as u32
}

/// The icon of the sound indicator for a sink.
pub fn sound_icon(sink: &SinkInfo) -> (r: SoundIcon)
    ensures
        r == sound_icon_of(
            match sink.name {
                Some(n) => Some(n@),
                None => None,
            },
            sink.mute,
            mean_volume(sink.volume@),
        ),
{
    let bluetooth = match &sink.name {
        Some(n) => {
            let n = n.as_str();
            if n.unicode_len() >= 6 {
                let head = n.substring_char(0, 6);
                same_text(head, "bluez_")
            } else {
                false
            }
        },
        None => false,
    };
    if bluetooth {
        if sink.mute {
            SoundIcon::BluetoothMuted
        } else {
            SoundIcon::Bluetooth
        }
    } else if sink.mute {
        SoundIcon::Muted
    } else {
        let mean = average_volume(&sink.volume) as u64;
        let level = (2 * mean + (VOLUME_NORMAL / 2) as u64) / (VOLUME_NORMAL as u64);
        if level == 0 {
            SoundIcon::Low
        } else if level == 1 {
            SoundIcon::Medium
        } else {
            SoundIcon::High
        }
    }
}

/// Where a workspace went in the ordered list.
#[derive(Clone, Copy, Debug, PartialEq, Eq, Structural)]
pub enum Placement {
    /// A new entry, now at this position.
    Inserted(usize),
    /// An id already listed, renamed in place at this position.
    Renamed(usize),
}

/// The ids listed rise strictly.
pub open spec fn ids_ascending(s: Seq<(usize, Seq<char>)>) -> bool {
    forall|i: int, j: int| 0 <= i < j < s.len() ==> s[i].0 < s[j].0
}

/// `pos` is where `id` stands, or would stand, in an ascending list.
pub open spec fn is_slot_of(s: Seq<(usize, Seq<char>)>, id: usize, pos: int) -> bool {
    &&& 0 <= pos <= s.len()
    &&& forall|i: int| 0 <= i < pos ==> s[i].0 < id
    &&& forall|i: int| pos <= i < s.len() ==> s[i].0 >= id
}

/// The workspaces shown, ordered by id, and the one marked active.
pub struct Workspaces {
    entries: Vec<(usize, String)>,
    active: Option<usize>,
}

impl Workspaces {
    /// The listed workspaces: ids with names.
    pub closed spec fn view(&self) -> Seq<(usize, Seq<char>)> {
        self.entries@.map_values(|e: (usize, String)| (e.0, e.1@))
    }

    /// The id of the active workspace, if one was activated.
    pub closed spec fn active_id(&self) -> Option<usize> {
        self.active
    }

    pub closed spec fn wf(&self) -> bool {
        ids_ascending(self.view())
    }

    pub fn new() -> (r: Workspaces)
        ensures
            r.wf(),
            ids_ascending(r.view()),
            r.view() == Seq::<(usize, Seq<char>)>::empty(),
            r.active_id() is None,
    {
        let r = Workspaces { entries: Vec::new(), active: None };
        assert(r.view() =~= Seq::<(usize, Seq<char>)>::empty());
        r
    }

    /// The number of workspaces listed.
    pub fn len(&self) -> (r: usize)
        ensures
            r == self.view().len(),
    {
        self.entries.len()
    }

    /// The id of the active workspace, if one was activated.
    pub fn active(&self) -> (r: Option<usize>)
        ensures
            r == self.active_id(),
    {
        self.active
    }

    /// The position of the first entry whose id is not below `id`.
    fn slot(&self, id: usize) -> (r: usize)
        requires
            self.wf(),
        ensures
            is_slot_of(self.view(), id, r as int),
    {
        let mut i: usize = 0;
        while i < self.entries.len()
            invariant
                self.wf(),
                i <= self.entries.len(),
                forall|j: int| 0 <= j < i ==> self.view()[j].0 < id,
            decreases self.entries.len() - i,
        {
            if self.entries[i].0 >= id {
                assert forall|j: int| i <= j < self.view().len() implies self.view()[j].0 >= id by {
                    if j > i {
                        assert(self.view()[i as int].0 < self.view()[j].0);
                    }
                }
                return i;
            }
            i = i + 1;
        }
        i
    }

    /// The position of workspace `id`, if listed.
    pub fn position(&self, id: usize) -> (r: Option<usize>)
        requires
            self.wf(),
        ensures
            r matches Some(p) ==> p < self.view().len() && self.view()[p as int].0 == id,
            r is None ==> forall|i: int| 0 <= i < self.view().len() ==> self.view()[i].0 != id,
    {
        let p = self.slot(id);
        if p < self.entries.len() && self.entries[p].0 == id {
            Some(p)
        } else {
            assert forall|i: int| 0 <= i < self.view().len() implies self.view()[i].0 != id by {
                if i > p {
                    assert(self.view()[p as int].0 < self.view()[i].0);
                }
                if p < self.entries.len() {
                    assert(self.view()[p as int].0 == self.entries@[p as int].0);
                }
            }
            None
        }
    }

    /// Lists workspace `id` under `name` in its place by id; an id already
    /// listed keeps its place and takes the new name.
    pub fn add(&mut self, id: usize, name: String) -> (r: Placement)
        requires
            old(self).wf(),
        ensures
            final(self).wf(),
            ids_ascending(final(self).view()),
            final(self).active_id() == old(self).active_id(),
            (exists|i: int| 0 <= i < old(self).view().len() && old(self).view()[i].0 == id) <==> r is Renamed,
            r matches Placement::Inserted(p) ==> is_slot_of(old(self).view(), id, p as int)
                && final(self).view() == old(self).view().insert(p as int, (id, name@)),
            r matches Placement::Renamed(p) ==> p < old(self).view().len() && old(self).view()[p as int].0
                == id && final(self).view() == old(self).view().update(p as int, (id, name@)),
    {
        let ghost name_view = name@;
        let p = self.slot(id);
        if p < self.entries.len() && self.entries[p].0 == id {
            assert(self.view()[p as int].0 == id);
            self.entries.set(p, (id, name));
            assert(self.view() =~= old(self).view().update(p as int, (id, name_view)));
            Placement::Renamed(p)
        } else {
            assert forall|i: int| 0 <= i < self.view().len() implies self.view()[i].0 != id by {
                if i > p {
                    assert(self.view()[p as int].0 < self.view()[i].0);
                }
                if p < self.entries.len() {
                    assert(self.view()[p as int].0 == self.entries@[p as int].0);
                }
            }
            self.entries.insert(p, (id, name));
            assert(self.view() =~= old(self).view().insert(p as int, (id, name_view)));
            Placement::Inserted(p)
        }
    }

    /// Takes workspace `id` off the list and returns where it stood; `None`
    /// when it is not listed. Removing the active workspace leaves none
    /// active.
    pub fn remove(&mut self, id: usize) -> (r: Option<usize>)
        requires
            old(self).wf(),
        ensures
            final(self).wf(),
            ids_ascending(final(self).view()),
            r is None <==> forall|i: int| 0 <= i < old(self).view().len() ==> old(self).view()[i].0 != id,
            r is None ==> final(self).view() == old(self).view() && final(self).active_id() == old(self).active_id(),
            r matches Some(p) ==> p < old(self).view().len() && old(self).view()[p as int].0 == id
                && final(self).view() == old(self).view().remove(p as int),
            r is Some ==> final(self).active_id() == if old(self).active_id() == Some(id) {
                None
            } else {
                old(self).active_id()
            },
    {
        match self.position(id) {
            None => None,
            Some(p) => {
                self.entries.remove(p);
                assert(self.view() =~= old(self).view().remove(p as int));
                if self.active == Some(id) {
                    self.active = None;
                }
                Some(p)
            },
        }
    }

    /// Marks workspace `id` active and returns where it stands; `None`, and
    /// no change, when it is not listed.
    pub fn activate(&mut self, id: usize) -> (r: Option<usize>)
        requires
            old(self).wf(),
        ensures
            final(self).wf(),
            ids_ascending(final(self).view()),
            final(self).view() == old(self).view(),
            r is None <==> forall|i: int| 0 <= i < old(self).view().len() ==> old(self).view()[i].0 != id,
            r is None ==> final(self).active_id() == old(self).active_id(),
            r matches Some(p) ==> p < old(self).view().len() && old(self).view()[p as int].0 == id
                && final(self).active_id() == Some(id),
    {
        let r = self.position(id);
        if r.is_some() {
            self.active = Some(id);
        }
        r
    }
}

} // verus!
