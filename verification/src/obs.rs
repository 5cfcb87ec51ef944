//! OBS integration over obs-websocket v5: the commands and events, what each
//! action asks of OBS and in which order, the capture scan that guards the start
//! of a recording, and the course of a session.
//!
//! Requests and replies travel elsewhere; here stands which request comes next
//! and what a reply means. State is event-driven (so changes made in the OBS GUI
//! are reflected), with a queried snapshot on connect.

use vstd::prelude::*;

use crate::backoff;
use crate::backoff::{Backoff, BACKOFF_INITIAL_SECS};
use crate::state::{RecordState, ReplayState};
use crate::text;

verus! {

// --- Commands and events ---------------------------------------------------

/// One of the OBS actions, tagged with the key that triggered it so a failure
/// can be flashed back on the right key.
#[derive(Debug, Clone, Copy, PartialEq, Eq, Structural)]
pub struct ObsCommand {
    pub action: ObsAction,
    pub key: usize,
}

#[derive(Debug, Clone, Copy, PartialEq, Eq, Structural)]
pub enum ObsAction {
    RecordStart,
    RecordStop,
    RecordTogglePause,
    RecordToggle,
    ReplayStart,
    ReplayStop,
    ReplayToggle,
    ReplaySave,
}

/// Events from the OBS thread to the main loop.
#[derive(Debug, Clone)]
pub enum ObsEvent {
    Connected,
    Disconnected,
    Record(RecordState),
    Replay(ReplayState),
    /// An action issued from `key` failed (e.g. save with the buffer off).
    ActionFailed { key: usize, detail: String },
    /// Capture-liveness poll result: `true` = OBS is capturing (or has no
    /// capture source), `false` = an enabled capture is present but blind
    /// (0x0). Only emitted when `show_capture_status` is on.
    CaptureLive(bool),
}

// --- The capture scan ------------------------------------------------------

/// An item of a scene or of a group.
#[derive(Debug, Clone)]
pub struct SceneItem {
    pub id: i64,
    /// The kind of its input, where it is one.
    pub kind: Option<String>,
    pub is_group: Option<bool>,
    pub name: String,
}

/// Screen/window video captures: the Linux PipeWire portal sources, whose kinds
/// contain `capture-source`. Excludes audio captures (they'd read 0x0).
pub fn is_capture_kind(kind: &str) -> (r: bool)
    ensures
        r == text::occurs(kind@, "capture-source"@),
{
    text::contains(&text::chars(kind), "capture-source")
}

/// Whether an item is a screen/window capture.
pub open spec fn is_capture(item: SceneItem) -> bool {
    item.kind is Some && text::occurs(item.kind->0@, "capture-source"@)
}

/// Whether an item is a screen/window capture.
fn capture_item(item: &SceneItem) -> (r: bool)
    ensures
        r == is_capture(*item),
{
    match &item.kind {
        Some(kind) => is_capture_kind(kind.as_str()),
        None => false,
    }
}

/// Whether an item is a group.
pub open spec fn is_group(item: SceneItem) -> bool {
    item.is_group == Some(true)
}

/// Whether an item is a group.
fn group_item(item: &SceneItem) -> (r: bool)
    ensures
        r == is_group(*item),
{
    match item.is_group {
        Some(b) => b,
        None => false,
    }
}

/// What OBS would answer.
pub struct Studio {
    /// The name of the current program scene.
    pub scene: Seq<char>,
    /// The items of a scene.
    pub items: spec_fn(Seq<char>) -> Seq<SceneItem>,
    /// The members of a group.
    pub members: spec_fn(Seq<char>) -> Seq<SceneItem>,
    /// Whether an item of a scene or group is enabled.
    pub enabled: spec_fn(Seq<char>, i64) -> bool,
    /// Whether an item of a scene or group has real (non-zero) dimensions.
    pub live: spec_fn(Seq<char>, i64) -> bool,
}

/// Liveness of an item viewed as a capture source: `None` if it is not a
/// screen/window capture, or one that's disabled; else whether it has real
/// dimensions. `scene` is the item's containing scene or group.
pub open spec fn liveness(w: Studio, scene: Seq<char>, item: SceneItem) -> Option<bool> {
    if is_capture(item) && (w.enabled)(scene, item.id) {
        Some((w.live)(scene, item.id))
    } else {
        None
    }
}

/// What is known once an item's liveness is: whether a capture was found, and
/// whether one was live.
pub open spec fn noted(acc: (bool, bool), l: Option<bool>) -> (bool, bool) {
    match l {
        Some(b) => (true, acc.1 || b),
        None => acc,
    }
}

/// What is known once the members of a group are looked at.
pub open spec fn over_members(
    w: Studio,
    group: Seq<char>,
    members: Seq<SceneItem>,
    acc: (bool, bool),
) -> (bool, bool)
    decreases members.len(),
{
    if members.len() == 0 {
        acc
    } else {
        over_members(
            w,
            group,
            members.drop_first(),
            noted(acc, liveness(w, group, members[0])),
        )
    }
}

/// What is known once an item is looked at as a group: its members count where it
/// is an enabled group.
pub open spec fn over_group(w: Studio, item: SceneItem, acc: (bool, bool)) -> (bool, bool) {
    if is_group(item) && (w.enabled)(w.scene, item.id) {
        over_members(w, item.name@, (w.members)(item.name@), acc)
    } else {
        acc
    }
}

/// What is known once the items of the scene are looked at.
pub open spec fn over_items(w: Studio, items: Seq<SceneItem>, acc: (bool, bool)) -> (bool, bool)
    decreases items.len(),
{
    if items.len() == 0 {
        acc
    } else {
        over_items(
            w,
            items.drop_first(),
            over_group(w, items[0], noted(acc, liveness(w, w.scene, items[0]))),
        )
    }
}

/// The result of a scan of the current program scene.
pub open spec fn scan_result(w: Studio) -> (bool, bool) {
    over_items(w, (w.items)(w.scene), (false, false))
}

/// What the scan asks OBS.
#[derive(Debug, Clone)]
pub enum CaptureRequest {
    /// The name of the current program scene.
    ProgramScene,
    /// The items of a scene.
    Items { scene: String },
    /// Whether an item is enabled.
    Enabled { scene: String, id: i64 },
    /// Whether an item has a width and a height of at least one.
    Dimensions { scene: String, id: i64 },
    /// The members of a group.
    Members { group: String },
}

/// What the scan asks OBS, as a value.
pub enum Question {
    ProgramScene,
    Items(Seq<char>),
    Enabled(Seq<char>, i64),
    Dimensions(Seq<char>, i64),
    Members(Seq<char>),
}

impl View for CaptureRequest {
    type V = Question;

    open spec fn view(&self) -> Question {
        match self {
            CaptureRequest::ProgramScene => Question::ProgramScene,
            CaptureRequest::Items { scene } => Question::Items(scene@),
            CaptureRequest::Enabled { scene, id } => Question::Enabled(scene@, *id),
            CaptureRequest::Dimensions { scene, id } => Question::Dimensions(scene@, *id),
            CaptureRequest::Members { group } => Question::Members(group@),
        }
    }
}

/// What OBS replies to the scan.
#[derive(Debug, Clone)]
pub enum CaptureReply {
    Scene(String),
    Items(Vec<SceneItem>),
    Flag(bool),
    /// The request failed.
    Failed(String),
}

/// Whether a reply is of the kind that a question asks for.
pub open spec fn fits(q: Question, reply: CaptureReply) -> bool {
    match q {
        Question::ProgramScene => reply is Scene,
        Question::Items(_) => reply is Items,
        Question::Enabled(_, _) => reply is Flag,
        Question::Dimensions(_, _) => reply is Flag,
        Question::Members(_) => reply is Items,
    }
}

/// Whether a reply is what OBS answers to a question.
pub open spec fn answers(w: Studio, q: Question, reply: CaptureReply) -> bool {
    match q {
        Question::ProgramScene => reply matches CaptureReply::Scene(s) && s@ == w.scene,
        Question::Items(s) => reply matches CaptureReply::Items(v) && v@ == (w.items)(s),
        Question::Enabled(s, id) => reply == CaptureReply::Flag((w.enabled)(s, id)),
        Question::Dimensions(s, id) => reply == CaptureReply::Flag((w.live)(s, id)),
        Question::Members(s) => reply matches CaptureReply::Items(v) && v@ == (w.members)(s),
    }
}

/// What comes next in a scan.
#[derive(Debug, Clone)]
pub enum ScanNext {
    Ask(CaptureRequest),
    /// The scan is over: whether any enabled capture is present, and whether at
    /// least one is producing video.
    Done { found: bool, live: bool },
    Failed(String),
}

/// What a scan waits for.
#[derive(Debug, Clone, Copy, PartialEq, Eq, Structural)]
pub enum ScanStage {
    Scene,
    Items,
    ItemEnabled,
    ItemLive,
    GroupEnabled,
    Members,
    MemberEnabled,
    MemberLive,
}

/// A scan of the current program scene for enabled screen/window captures. Scope
/// is the scene's top-level items plus one level of enabled groups (OBS groups
/// can't nest); nested scenes aren't descended, and disabled items are ignored
/// since they composite nothing.
#[derive(Debug, Clone)]
pub struct CaptureScan {
    pub stage: ScanStage,
    pub scene: String,
    pub items: Vec<SceneItem>,
    pub item: usize,
    pub members: Vec<SceneItem>,
    pub member: usize,
    pub found: bool,
    pub live: bool,
}

impl CaptureScan {
    /// What is known so far.
    pub open spec fn acc(self) -> (bool, bool) {
        (self.found, self.live)
    }

    /// The item that is looked at.
    pub open spec fn current(self) -> SceneItem {
        self.items@[self.item as int]
    }

    /// The member that is looked at.
    pub open spec fn current_member(self) -> SceneItem {
        self.members@[self.member as int]
    }

    /// Whether the positions fit the stage.
    pub open spec fn wf(self) -> bool {
        match self.stage {
            ScanStage::Scene | ScanStage::Items => self.acc() == (false, false),
            ScanStage::ItemEnabled | ScanStage::ItemLive => self.item < self.items.len()
                && is_capture(self.current()),
            ScanStage::GroupEnabled | ScanStage::Members => self.item < self.items.len()
                && is_group(self.current()),
            ScanStage::MemberEnabled | ScanStage::MemberLive => self.item < self.items.len()
                && is_group(self.current()) && self.member < self.members.len() && is_capture(
                self.current_member(),
            ),
        }
    }

    /// The question that waits for its answer.
    pub open spec fn question(self) -> Question {
        match self.stage {
            ScanStage::Scene => Question::ProgramScene,
            ScanStage::Items => Question::Items(self.scene@),
            ScanStage::ItemEnabled => Question::Enabled(self.scene@, self.current().id),
            ScanStage::ItemLive => Question::Dimensions(self.scene@, self.current().id),
            ScanStage::GroupEnabled => Question::Enabled(self.scene@, self.current().id),
            ScanStage::Members => Question::Members(self.current().name@),
            ScanStage::MemberEnabled => Question::Enabled(
                self.current().name@,
                self.current_member().id,
            ),
            ScanStage::MemberLive => Question::Dimensions(
                self.current().name@,
                self.current_member().id,
            ),
        }
    }

    /// Whether what the scan holds is what OBS answered.
    pub open spec fn knows(self, w: Studio) -> bool {
        self.scene@ == w.scene && self.items@ == (w.items)(w.scene)
    }

    /// What the scan comes to if the items from `from` on are looked at with
    /// `acc` known.
    pub open spec fn ends_from(self, w: Studio, from: int, acc: (bool, bool)) -> bool {
        over_items(w, self.items@.skip(from), acc) == scan_result(w)
    }

    /// Whether the scan of what OBS answers is on its way to the result.
    pub open spec fn follows(self, w: Studio) -> bool {
        match self.stage {
            ScanStage::Scene => true,
            ScanStage::Items => self.scene@ == w.scene,
            ScanStage::ItemEnabled => self.knows(w) && self.ends_from(
                w,
                self.item as int,
                self.acc(),
            ),
            ScanStage::ItemLive => self.knows(w) && (w.enabled)(w.scene, self.current().id)
                && self.ends_from(w, self.item as int, self.acc()),
            ScanStage::GroupEnabled => self.knows(w) && self.ends_from(
                w,
                self.item + 1,
                over_group(w, self.current(), self.acc()),
            ),
            ScanStage::Members => self.knows(w) && (w.enabled)(w.scene, self.current().id)
                && self.ends_from(w, self.item + 1, over_group(w, self.current(), self.acc())),
            ScanStage::MemberEnabled => self.knows(w) && self.members@ == (w.members)(
                self.current().name@,
            ) && self.ends_from(
                w,
                self.item + 1,
                over_members(
                    w,
                    self.current().name@,
                    self.members@.skip(self.member as int),
                    self.acc(),
                ),
            ),
            ScanStage::MemberLive => self.knows(w) && self.members@ == (w.members)(
                self.current().name@,
            ) && (w.enabled)(self.current().name@, self.current_member().id) && self.ends_from(
                w,
                self.item + 1,
                over_members(
                    w,
                    self.current().name@,
                    self.members@.skip(self.member as int),
                    self.acc(),
                ),
            ),
        }
    }

    /// Whether what comes next leads to the result.
    pub open spec fn leads(self, w: Studio, next: ScanNext) -> bool {
        match next {
            ScanNext::Ask(_) => self.follows(w),
            ScanNext::Done { found, live } => (found, live) == scan_result(w),
            ScanNext::Failed(_) => false,
        }
    }

    /// How far the scan is from its end: items left, then the stage of the item,
    /// then what is left of its members.
    pub open spec fn distance(self) -> (int, int, int) {
        let left = self.items.len() - self.item;
        match self.stage {
            ScanStage::Scene => (usize::MAX + 2, 0, 0),
            ScanStage::Items => (usize::MAX + 1, 0, 0),
            ScanStage::ItemEnabled => (left, 5, 0),
            ScanStage::ItemLive => (left, 4, 0),
            ScanStage::GroupEnabled => (left, 3, 0),
            ScanStage::Members => (left, 2, 0),
            ScanStage::MemberEnabled => (left, 1, 2 * (self.members.len() - self.member)),
            ScanStage::MemberLive => (left, 1, 2 * (self.members.len() - self.member) - 1),
        }
    }
}

/// Whether one distance is below another.
pub open spec fn nearer(a: (int, int, int), b: (int, int, int)) -> bool {
    a.0 < b.0 || (a.0 == b.0 && (a.1 < b.1 || (a.1 == b.1 && a.2 < b.2)))
}

/// Whether what comes next is asked, and nearer to the end.
pub open spec fn moves_on(before: CaptureScan, after: CaptureScan, next: ScanNext) -> bool {
    next matches ScanNext::Ask(request) ==> after.wf() && request@ == after.question() && nearer(
        after.distance(),
        before.distance(),
    )
}

/// The first item, from a position on, that OBS has to be asked about.
pub open spec fn item_from(items: Seq<SceneItem>, from: int) -> int
    decreases items.len() - from,
{
    if from >= items.len() || is_capture(items[from]) || is_group(items[from]) {
        from
    } else {
        item_from(items, from + 1)
    }
}

/// The first member, from a position on, that OBS has to be asked about.
pub open spec fn member_from(members: Seq<SceneItem>, from: int) -> int
    decreases members.len() - from,
{
    if from >= members.len() || is_capture(members[from]) {
        from
    } else {
        member_from(members, from + 1)
    }
}

impl CaptureScan {
    /// Whether the scan looks at an item of a list, with `acc` known.
    pub open spec fn is_at(
        self,
        stage: ScanStage,
        scene: Seq<char>,
        items: Seq<SceneItem>,
        item: int,
        acc: (bool, bool),
    ) -> bool {
        &&& self.stage == stage
        &&& self.scene@ == scene
        &&& self.items@ == items
        &&& self.item == item
        &&& self.acc() == acc
    }

    /// Whether the scan went on to the first item, from a position on, that OBS has
    /// to be asked about, and is over where there is none.
    pub open spec fn is_at_item(
        self,
        scene: Seq<char>,
        items: Seq<SceneItem>,
        from: int,
        acc: (bool, bool),
        next: ScanNext,
    ) -> bool {
        let i = item_from(items, from);
        if i >= items.len() {
            next == (ScanNext::Done { found: acc.0, live: acc.1 })
        } else {
            &&& next is Ask
            &&& self.is_at(
                if is_capture(items[i]) {
                    ScanStage::ItemEnabled
                } else {
                    ScanStage::GroupEnabled
                },
                scene,
                items,
                i,
                acc,
            )
        }
    }

    /// Whether the scan went on with an item as a group, or with the next item if it
    /// is none.
    pub open spec fn is_at_group(
        self,
        scene: Seq<char>,
        items: Seq<SceneItem>,
        item: int,
        acc: (bool, bool),
        next: ScanNext,
    ) -> bool {
        if is_group(items[item]) {
            next is Ask && self.is_at(ScanStage::GroupEnabled, scene, items, item, acc)
        } else {
            self.is_at_item(scene, items, item + 1, acc, next)
        }
    }

    /// Whether the scan went on to the first member of an item, from a position on,
    /// that OBS has to be asked about, or to the next item if there is none.
    pub open spec fn is_at_member(
        self,
        before: CaptureScan,
        members: Seq<SceneItem>,
        from: int,
        acc: (bool, bool),
        next: ScanNext,
    ) -> bool {
        let m = member_from(members, from);
        if m >= members.len() {
            self.is_at_item(before.scene@, before.items@, before.item + 1, acc, next)
        } else {
            &&& next is Ask
            &&& self.is_at(
                ScanStage::MemberEnabled,
                before.scene@,
                before.items@,
                before.item as int,
                acc,
            )
            &&& self.members@ == members
            &&& self.member == m
        }
    }

    /// Whether the scan went on from a reply: where it is then, what it knows by then,
    /// and what comes next. This holds of every reply by itself, whatever was replied
    /// before.
    pub open spec fn is_advanced(
        self,
        reply: CaptureReply,
        after: CaptureScan,
        next: ScanNext,
    ) -> bool {
        match (self.stage, reply) {
            (_, CaptureReply::Failed(e)) => next == ScanNext::Failed(e),
            (ScanStage::Scene, CaptureReply::Scene(name)) => {
                &&& next is Ask
                &&& after.stage == ScanStage::Items
                &&& after.scene@ == name@
                &&& after.acc() == self.acc()
            },
            (ScanStage::Items, CaptureReply::Items(list)) => after.is_at_item(
                self.scene@,
                list@,
                0,
                self.acc(),
                next,
            ),
            (ScanStage::ItemEnabled, CaptureReply::Flag(enabled)) => if enabled {
                next is Ask && after.is_at(
                    ScanStage::ItemLive,
                    self.scene@,
                    self.items@,
                    self.item as int,
                    self.acc(),
                )
            } else {
                after.is_at_group(self.scene@, self.items@, self.item as int, self.acc(), next)
            },
            (ScanStage::ItemLive, CaptureReply::Flag(live)) => after.is_at_group(
                self.scene@,
                self.items@,
                self.item as int,
                noted(self.acc(), Some(live)),
                next,
            ),
            (ScanStage::GroupEnabled, CaptureReply::Flag(enabled)) => if enabled {
                next is Ask && after.is_at(
                    ScanStage::Members,
                    self.scene@,
                    self.items@,
                    self.item as int,
                    self.acc(),
                )
            } else {
                after.is_at_item(self.scene@, self.items@, self.item + 1, self.acc(), next)
            },
            (ScanStage::Members, CaptureReply::Items(list)) => after.is_at_member(
                self,
                list@,
                0,
                self.acc(),
                next,
            ),
            (ScanStage::MemberEnabled, CaptureReply::Flag(enabled)) => if enabled {
                &&& next is Ask
                &&& after.is_at(
                    ScanStage::MemberLive,
                    self.scene@,
                    self.items@,
                    self.item as int,
                    self.acc(),
                )
                &&& after.members@ == self.members@
                &&& after.member == self.member
            } else {
                after.is_at_member(self, self.members@, self.member + 1, self.acc(), next)
            },
            (ScanStage::MemberLive, CaptureReply::Flag(live)) => after.is_at_member(
                self,
                self.members@,
                self.member + 1,
                noted(self.acc(), Some(live)),
                next,
            ),
            _ => true,
        }
    }
}

impl CaptureScan {
    /// Begin a scan: it asks for the current program scene first.
    pub fn new() -> (r: CaptureScan)
        ensures
            r.wf(),
            r.question() == Question::ProgramScene,
            forall|w: Studio| #[trigger] r.follows(w),
    {
        CaptureScan {
            stage: ScanStage::Scene,
            scene: String::new(),
            items: Vec::new(),
            item: 0,
            members: Vec::new(),
            member: 0,
            found: false,
            live: false,
        }
    }

    /// The request that waits for its reply.
    pub fn request(&self) -> (r: CaptureRequest)
        requires
            self.wf(),
        ensures
            r@ == self.question(),
    {
        match self.stage {
            ScanStage::Scene => CaptureRequest::ProgramScene,
            ScanStage::Items => CaptureRequest::Items { scene: self.scene.as_str().to_string() },
            ScanStage::ItemEnabled | ScanStage::GroupEnabled => CaptureRequest::Enabled {
                scene: self.scene.as_str().to_string(),
                id: self.items[self.item].id,
            },
            ScanStage::ItemLive => CaptureRequest::Dimensions {
                scene: self.scene.as_str().to_string(),
                id: self.items[self.item].id,
            },
            ScanStage::Members => CaptureRequest::Members {
                group: self.items[self.item].name.as_str().to_string(),
            },
            ScanStage::MemberEnabled => CaptureRequest::Enabled {
                scene: self.items[self.item].name.as_str().to_string(),
                id: self.members[self.member].id,
            },
            ScanStage::MemberLive => CaptureRequest::Dimensions {
                scene: self.items[self.item].name.as_str().to_string(),
                id: self.members[self.member].id,
            },
        }
    }

    /// Go on to the next item, from the current position on, that OBS has to be
    /// asked about.
    fn seek_item(&mut self) -> (r: ScanNext)
        requires
            old(self).item <= old(self).items.len(),
        ensures
            final(self).is_at_item(
                old(self).scene@,
                old(self).items@,
                old(self).item as int,
                old(self).acc(),
                r,
            ),
            r is Ask || r == (ScanNext::Done { found: old(self).found, live: old(self).live }),
            r matches ScanNext::Ask(request) ==> final(self).wf() && request@
                == final(self).question() && final(self).item >= old(self).item
                && final(self).items@ == old(self).items@ && (final(self).stage
                == ScanStage::ItemEnabled || final(self).stage == ScanStage::GroupEnabled),
            forall|w: Studio|
                old(self).knows(w) && #[trigger] old(self).ends_from(
                    w,
                    old(self).item as int,
                    old(self).acc(),
                ) ==> final(self).leads(w, r),
    {
        while self.item < self.items.len()
            invariant
                self.item <= self.items.len(),
                old(self).item <= self.item,
                item_from(self.items@, self.item as int) == item_from(
                    old(self).items@,
                    old(self).item as int,
                ),
                self.items@ == old(self).items@,
                self.scene@ == old(self).scene@,
                self.acc() == old(self).acc(),
                forall|w: Studio|
                    old(self).knows(w) && #[trigger] old(self).ends_from(
                        w,
                        old(self).item as int,
                        old(self).acc(),
                    ) ==> self.ends_from(w, self.item as int, self.acc()),
            decreases self.items.len() - self.item,
        {
            assert(self.items@.skip(self.item as int).drop_first() =~= self.items@.skip(
                self.item + 1,
            ));
            assert(self.items@.skip(self.item as int)[0] == self.current());
            if capture_item(&self.items[self.item]) {
                self.stage = ScanStage::ItemEnabled;
                return ScanNext::Ask(self.request());
            }
            if group_item(&self.items[self.item]) {
                self.stage = ScanStage::GroupEnabled;
                return ScanNext::Ask(self.request());
            }
            self.item = self.item + 1;
        }
        assert(self.items@.skip(self.item as int) =~= Seq::<SceneItem>::empty());
        ScanNext::Done { found: self.found, live: self.live }
    }

    /// Go on with the current item as a group, or with the next item if it is
    /// none.
    fn seek_group(&mut self) -> (r: ScanNext)
        requires
            old(self).item < old(self).items.len(),
        ensures
            final(self).is_at_group(
                old(self).scene@,
                old(self).items@,
                old(self).item as int,
                old(self).acc(),
                r,
            ),
            r is Ask || r == (ScanNext::Done { found: old(self).found, live: old(self).live }),
            r matches ScanNext::Ask(request) ==> final(self).wf() && request@
                == final(self).question() && final(self).items@ == old(self).items@ && (
            final(self).item > old(self).item && final(self).stage == ScanStage::ItemEnabled
                || final(self).item >= old(self).item && final(self).stage
                == ScanStage::GroupEnabled),
            forall|w: Studio|
                old(self).knows(w) && #[trigger] old(self).ends_from(
                    w,
                    old(self).item + 1,
                    over_group(w, old(self).current(), old(self).acc()),
                ) ==> final(self).leads(w, r),
    {
        if group_item(&self.items[self.item]) {
            self.stage = ScanStage::GroupEnabled;
            return ScanNext::Ask(self.request());
        }
        self.item = self.item + 1;
        let ghost here = *self;
        let next = self.seek_item();
        assert forall|w: Studio|
            old(self).knows(w) && #[trigger] old(self).ends_from(
                w,
                old(self).item + 1,
                over_group(w, old(self).current(), old(self).acc()),
            ) implies self.leads(w, next) by {
            assert(here.ends_from(w, here.item as int, here.acc()));
        }
        next
    }

    /// Go on to the next member, from the current position on, that OBS has to be
    /// asked about, or to the next item if there is none.
    fn seek_member(&mut self) -> (r: ScanNext)
        requires
            old(self).item < old(self).items.len(),
            is_group(old(self).current()),
            old(self).member <= old(self).members.len(),
        ensures
            final(self).is_at_member(
                *old(self),
                old(self).members@,
                old(self).member as int,
                old(self).acc(),
                r,
            ),
            r is Ask || r == (ScanNext::Done { found: old(self).found, live: old(self).live }),
            r matches ScanNext::Ask(request) ==> final(self).wf() && request@
                == final(self).question() && final(self).items@ == old(self).items@ && (
            final(self).item > old(self).item && (final(self).stage == ScanStage::ItemEnabled
                || final(self).stage == ScanStage::GroupEnabled) || final(self).item == old(
                self,
            ).item && final(self).stage == ScanStage::MemberEnabled && final(self).members@ == old(
                self,
            ).members@ && final(self).member >= old(self).member),
            forall|w: Studio|
                old(self).knows(w) && old(self).members@ == (w.members)(old(self).current().name@)
                    && #[trigger] old(self).ends_from(
                    w,
                    old(self).item + 1,
                    over_members(
                        w,
                        old(self).current().name@,
                        old(self).members@.skip(old(self).member as int),
                        old(self).acc(),
                    ),
                ) ==> final(self).leads(w, r),
    {
        let ghost group = self.current().name@;
        while self.member < self.members.len()
            invariant
                self.item < self.items.len(),
                self.item == old(self).item,
                is_group(self.current()),
                group == self.current().name@,
                self.items@ == old(self).items@,
                self.scene@ == old(self).scene@,
                self.members@ == old(self).members@,
                self.acc() == old(self).acc(),
                old(self).member <= self.member <= self.members.len(),
                member_from(self.members@, self.member as int) == member_from(
                    old(self).members@,
                    old(self).member as int,
                ),
                forall|w: Studio|
                    old(self).knows(w) && old(self).members@ == (w.members)(group)
                        && #[trigger] old(self).ends_from(
                        w,
                        old(self).item + 1,
                        over_members(
                            w,
                            group,
                            old(self).members@.skip(old(self).member as int),
                            old(self).acc(),
                        ),
                    ) ==> self.ends_from(
                        w,
                        self.item + 1,
                        over_members(
                            w,
                            group,
                            self.members@.skip(self.member as int),
                            self.acc(),
                        ),
                    ),
            decreases self.members.len() - self.member,
        {
            assert(self.members@.skip(self.member as int).drop_first() =~= self.members@.skip(
                self.member + 1,
            ));
            assert(self.members@.skip(self.member as int)[0] == self.current_member());
            if capture_item(&self.members[self.member]) {
                self.stage = ScanStage::MemberEnabled;
                return ScanNext::Ask(self.request());
            }
            self.member = self.member + 1;
        }
        assert(self.members@.skip(self.member as int) =~= Seq::<SceneItem>::empty());
        self.item = self.item + 1;
        let ghost here = *self;
        let next = self.seek_item();
        assert forall|w: Studio|
            old(self).knows(w) && old(self).members@ == (w.members)(old(self).current().name@)
                && #[trigger] old(self).ends_from(
                w,
                old(self).item + 1,
                over_members(
                    w,
                    old(self).current().name@,
                    old(self).members@.skip(old(self).member as int),
                    old(self).acc(),
                ),
            ) implies self.leads(w, next) by {
            assert(here.ends_from(w, here.item as int, here.acc()));
        }
        next
    }

    /// Take the reply to the request that waits for it.
    pub fn answer(&mut self, reply: CaptureReply) -> (r: ScanNext)
        requires
            old(self).wf(),
            reply is Failed || fits(old(self).question(), reply),
        ensures
            r is Failed <==> reply is Failed,
            old(self).is_advanced(reply, *final(self), r),
            moves_on(*old(self), *final(self), r),
            r is Ask && final(self).question() is Dimensions ==> reply == CaptureReply::Flag(true)
                && old(self).question() == Question::Enabled(
                final(self).question()->Dimensions_0,
                final(self).question()->Dimensions_1,
            ),
            forall|w: Studio|
                #[trigger] old(self).follows(w) && answers(w, old(self).question(), reply)
                    ==> final(self).leads(w, r),
    {
        let ghost before = *self;
        let ghost given = reply;
        match reply {
            CaptureReply::Failed(e) => ScanNext::Failed(e),
            CaptureReply::Scene(name) => {
                self.scene = name;
                self.stage = ScanStage::Items;
                ScanNext::Ask(self.request())
            },
            CaptureReply::Items(list) => if self.stage == ScanStage::Items {
                self.items = list;
                self.item = 0;
                let ghost here = *self;
                assert(self.items@.skip(0) =~= self.items@);
                let next = self.seek_item();
                assert forall|w: Studio|
                    #[trigger] before.follows(w) && answers(
                        w,
                        before.question(),
                        given,
                    ) implies self.leads(w, next) by {
                    assert(here.ends_from(w, here.item as int, here.acc()));
                }
                next
            } else {
                self.members = list;
                self.member = 0;
                let ghost here = *self;
                assert(self.members@.skip(0) =~= self.members@);
                let next = self.seek_member();
                assert forall|w: Studio|
                    #[trigger] before.follows(w) && answers(
                        w,
                        before.question(),
                        given,
                    ) implies self.leads(w, next) by {
                    assert(here.ends_from(
                        w,
                        here.item + 1,
                        over_members(
                            w,
                            here.current().name@,
                            here.members@.skip(here.member as int),
                            here.acc(),
                        ),
                    ));
                }
                next
            },
            CaptureReply::Flag(flag) => self.flag(flag),
        }
    }

    /// Take a yes or a no.
    fn flag(&mut self, flag: bool) -> (r: ScanNext)
        requires
            old(self).wf(),
            fits(old(self).question(), CaptureReply::Flag(flag)),
        ensures
            r !is Failed,
            old(self).is_advanced(CaptureReply::Flag(flag), *final(self), r),
            moves_on(*old(self), *final(self), r),
            r is Ask && final(self).question() is Dimensions ==> flag && old(self).question()
                == Question::Enabled(
                final(self).question()->Dimensions_0,
                final(self).question()->Dimensions_1,
            ),
            forall|w: Studio|
                #[trigger] old(self).follows(w) && answers(
                    w,
                    old(self).question(),
                    CaptureReply::Flag(flag),
                ) ==> final(self).leads(w, r),
    {
        let ghost before = *self;
        let ghost given = CaptureReply::Flag(flag);
        assert(self.items@.skip(self.item as int).drop_first() =~= self.items@.skip(self.item + 1));
        proof {
            if self.member < self.members.len() {
                assert(self.members@.skip(self.member as int).drop_first() =~= self.members@.skip(
                    self.member + 1,
                ));
            }
        }
        match self.stage {
            ScanStage::ItemEnabled => {
                if flag {
                    self.stage = ScanStage::ItemLive;
                    return ScanNext::Ask(self.request());
                }
                let next = self.seek_group();
                assert forall|w: Studio|
                    #[trigger] before.follows(w) && answers(
                        w,
                        before.question(),
                        given,
                    ) implies self.leads(w, next) by {
                    assert(before.ends_from(
                        w,
                        before.item + 1,
                        over_group(w, before.current(), before.acc()),
                    ));
                }
                next
            },
            ScanStage::ItemLive => {
                self.found = true;
                self.live = self.live || flag;
                let ghost here = *self;
                let next = self.seek_group();
                assert forall|w: Studio|
                    #[trigger] before.follows(w) && answers(
                        w,
                        before.question(),
                        given,
                    ) implies self.leads(w, next) by {
                    assert(here.ends_from(
                        w,
                        here.item + 1,
                        over_group(w, here.current(), here.acc()),
                    ));
                }
                next
            },
            ScanStage::GroupEnabled => {
                if flag {
                    self.stage = ScanStage::Members;
                    return ScanNext::Ask(self.request());
                }
                self.item = self.item + 1;
                let ghost here = *self;
                let next = self.seek_item();
                assert forall|w: Studio|
                    #[trigger] before.follows(w) && answers(
                        w,
                        before.question(),
                        given,
                    ) implies self.leads(w, next) by {
                    assert(here.ends_from(w, here.item as int, here.acc()));
                }
                next
            },
            ScanStage::MemberEnabled => {
                if flag {
                    self.stage = ScanStage::MemberLive;
                    return ScanNext::Ask(self.request());
                }
                self.member = self.member + 1;
                let ghost here = *self;
                let next = self.seek_member();
                assert forall|w: Studio|
                    #[trigger] before.follows(w) && answers(
                        w,
                        before.question(),
                        given,
                    ) implies self.leads(w, next) by {
                    assert(here.ends_from(
                        w,
                        here.item + 1,
                        over_members(
                            w,
                            here.current().name@,
                            here.members@.skip(here.member as int),
                            here.acc(),
                        ),
                    ));
                }
                next
            },
            ScanStage::MemberLive => {
                self.found = true;
                self.live = self.live || flag;
                self.member = self.member + 1;
                let ghost here = *self;
                let next = self.seek_member();
                assert forall|w: Studio|
                    #[trigger] before.follows(w) && answers(
                        w,
                        before.question(),
                        given,
                    ) implies self.leads(w, next) by {
                    assert(here.ends_from(
                        w,
                        here.item + 1,
                        over_members(
                            w,
                            here.current().name@,
                            here.members@.skip(here.member as int),
                            here.acc(),
                        ),
                    ));
                }
                next
            },
            _ => {
                assert(false);
                ScanNext::Done { found: false, live: false }
            },
        }
    }
}

/// What a look at members adds, in one statement.
proof fn over_members_means(
    w: Studio,
    group: Seq<char>,
    members: Seq<SceneItem>,
    acc: (bool, bool),
)
    ensures
        over_members(w, group, members, acc).0 == (acc.0 || exists|m: SceneItem| #[trigger]
            members.contains(m) && liveness(w, group, m) is Some),
        over_members(w, group, members, acc).1 == (acc.1 || exists|m: SceneItem| #[trigger]
            members.contains(m) && liveness(w, group, m) == Some(true)),
    decreases members.len(),
{
    if members.len() > 0 {
        let rest = members.drop_first();
        over_members_means(w, group, rest, noted(acc, liveness(w, group, members[0])));
        assert(members.contains(members[0]));
        assert forall|m: SceneItem| #[trigger] members.contains(m) == (rest.contains(m) || m
            == members[0]) by {
            if members.contains(m) {
                let i = choose|i: int| 0 <= i < members.len() && members[i] == m;
                if i > 0 {
                    assert(rest[i - 1] == m);
                }
            }
            if rest.contains(m) {
                let i = choose|i: int| 0 <= i < rest.len() && rest[i] == m;
                assert(members[i + 1] == m);
            }
        }
        assert forall|m: SceneItem| #[trigger] rest.contains(m) implies members.contains(m) by {}
    }
}

/// Whether an item counts: an enabled capture among the scene's own items, or
/// among the members of one of its enabled groups.
pub open spec fn counts(
    w: Studio,
    items: Seq<SceneItem>,
    scene: Seq<char>,
    item: SceneItem,
) -> bool {
    &&& liveness(w, scene, item) is Some
    &&& {
        ||| scene == w.scene && items.contains(item)
        ||| (w.members)(scene).contains(item) && exists|g: SceneItem| #[trigger]
            items.contains(g) && is_group(g) && (w.enabled)(w.scene, g.id) && g.name@ == scene
    }
}

/// What a look at items adds, in one statement.
proof fn over_items_means(w: Studio, items: Seq<SceneItem>, acc: (bool, bool))
    ensures
        over_items(w, items, acc).0 == (acc.0 || exists|scene: Seq<char>, m: SceneItem| #[trigger]
            counts(w, items, scene, m)),
        over_items(w, items, acc).1 == (acc.1 || exists|scene: Seq<char>, m: SceneItem| #[trigger]
            counts(w, items, scene, m) && liveness(w, scene, m) == Some(true)),
    decreases items.len(),
{
    if items.len() > 0 {
        let first = items[0];
        let rest = items.drop_first();
        let here = noted(acc, liveness(w, w.scene, first));
        let opened = is_group(first) && (w.enabled)(w.scene, first.id);
        if opened {
            over_members_means(w, first.name@, (w.members)(first.name@), here);
        }
        over_items_means(w, rest, over_group(w, first, here));
        assert(items.contains(first));
        assert forall|m: SceneItem| #[trigger] items.contains(m) == (rest.contains(m) || m
            == first) by {
            if items.contains(m) {
                let i = choose|i: int| 0 <= i < items.len() && items[i] == m;
                if i > 0 {
                    assert(rest[i - 1] == m);
                }
            }
            if rest.contains(m) {
                let i = choose|i: int| 0 <= i < rest.len() && rest[i] == m;
                assert(items[i + 1] == m);
            }
        }
        assert forall|scene: Seq<char>, m: SceneItem| #[trigger]
            counts(w, rest, scene, m) implies counts(w, items, scene, m) by {
            if exists|g: SceneItem| #[trigger]
                rest.contains(g) && is_group(g) && (w.enabled)(w.scene, g.id) && g.name@ == scene {
                let g = choose|g: SceneItem| #[trigger]
                    rest.contains(g) && is_group(g) && (w.enabled)(w.scene, g.id) && g.name@
                        == scene;
                assert(items.contains(g));
            }
            if rest.contains(m) {
                assert(items.contains(m));
            }
        }
        assert forall|scene: Seq<char>, m: SceneItem| #[trigger]
            counts(w, items, scene, m) implies counts(w, rest, scene, m) || (scene == w.scene && m
            == first) || (opened && scene == first.name@ && (w.members)(scene).contains(m)) by {
            if exists|g: SceneItem| #[trigger]
                items.contains(g) && is_group(g) && (w.enabled)(w.scene, g.id) && g.name@ == scene {
                let g = choose|g: SceneItem| #[trigger]
                    items.contains(g) && is_group(g) && (w.enabled)(w.scene, g.id) && g.name@
                        == scene;
                if g != first {
                    assert(rest.contains(g));
                }
            }
        }
        if liveness(w, w.scene, first) is Some {
            assert(counts(w, items, w.scene, first));
        }
        assert forall|m: SceneItem| opened && liveness(w, first.name@, m) is Some && #[trigger]
            (w.members)(first.name@).contains(m) implies counts(w, items, first.name@, m) by {}
    }
}

/// A scan finds a capture exactly if an enabled one is in scope, and finds it
/// live exactly if one of those produces video.
pub proof fn scan_sees_what_is_in_scope(w: Studio)
    ensures
        scan_result(w).0 == exists|scene: Seq<char>, m: SceneItem| #[trigger]
            counts(w, (w.items)(w.scene), scene, m),
        scan_result(w).1 == exists|scene: Seq<char>, m: SceneItem| #[trigger]
            counts(w, (w.items)(w.scene), scene, m) && (w.live)(scene, m.id),
{
    over_items_means(w, (w.items)(w.scene), (false, false));
}

// --- Actions ---------------------------------------------------------------

/// A request that is answered with success, failure or a status.
#[derive(Debug, Clone, Copy, PartialEq, Eq, Structural)]
pub enum PlainRequest {
    RecordStatus,
    RecordStart,
    RecordStop,
    RecordTogglePause,
    ReplayStart,
    ReplayStop,
    ReplayToggle,
    ReplaySave,
}

/// What an action asks OBS.
#[derive(Debug, Clone)]
pub enum ObsRequest {
    Plain(PlainRequest),
    Capture(CaptureRequest),
}

/// What OBS replies to an action.
#[derive(Debug, Clone)]
pub enum ObsReply {
    Done,
    Status { active: bool, paused: bool },
    Capture(CaptureReply),
    /// The request failed.
    Failed(String),
}

/// Why an action failed.
#[derive(Debug, Clone)]
pub enum ActionError {
    /// A request failed.
    Request(String),
    /// OBS captures nothing, so that a recording would record nothing.
    Blind,
}

/// What comes next in an action.
#[derive(Debug, Clone)]
pub enum ActionNext {
    Ask(ObsRequest),
    Finished,
    Failed(ActionError),
}

/// What an action waits for.
#[derive(Debug, Clone, Copy, PartialEq, Eq, Structural)]
pub enum ActionStage {
    /// The reply to a request.
    Waiting(PlainRequest),
    /// The capture scan that guards the start of a recording.
    Guard,
}

/// An action on its way.
#[derive(Debug, Clone)]
pub struct ActionRun {
    pub stage: ActionStage,
    pub scan: CaptureScan,
}

/// Whether OBS has an enabled capture but every one is blind.
pub open spec fn blind(w: Studio) -> bool {
    scan_result(w).0 && !scan_result(w).1
}

/// What an action begins with. Recording *starts* are guarded so a blind capture
/// can't silently record nothing; the toggle reads the direction first.
pub open spec fn first_stage(action: ObsAction) -> ActionStage {
    match action {
        ObsAction::RecordStart => ActionStage::Guard,
        ObsAction::RecordStop => ActionStage::Waiting(PlainRequest::RecordStop),
        ObsAction::RecordTogglePause => ActionStage::Waiting(PlainRequest::RecordTogglePause),
        ObsAction::RecordToggle => ActionStage::Waiting(PlainRequest::RecordStatus),
        ObsAction::ReplayStart => ActionStage::Waiting(PlainRequest::ReplayStart),
        ObsAction::ReplayStop => ActionStage::Waiting(PlainRequest::ReplayStop),
        ObsAction::ReplayToggle => ActionStage::Waiting(PlainRequest::ReplayToggle),
        ObsAction::ReplaySave => ActionStage::Waiting(PlainRequest::ReplaySave),
    }
}

/// What the toggle goes on with: a paused recording resumes, a running one stops,
/// and only the start edge is guarded.
pub open spec fn toggle_stage(active: bool, paused: bool) -> ActionStage {
    if paused {
        ActionStage::Waiting(PlainRequest::RecordTogglePause)
    } else if active {
        ActionStage::Waiting(PlainRequest::RecordStop)
    } else {
        ActionStage::Guard
    }
}

impl ActionRun {
    /// Whether the scan fits the stage.
    pub open spec fn wf(self) -> bool {
        self.stage == ActionStage::Guard ==> self.scan.wf()
    }

    /// Whether a request is the one that waits for its reply.
    pub open spec fn asks(self, request: ObsRequest) -> bool {
        match request {
            ObsRequest::Plain(p) => self.stage == ActionStage::Waiting(p),
            ObsRequest::Capture(c) => self.stage == ActionStage::Guard && c@
                == self.scan.question(),
        }
    }

    /// Whether a reply is of the kind that is waited for.
    pub open spec fn awaits(self, reply: ObsReply) -> bool {
        match self.stage {
            ActionStage::Waiting(p) => match reply {
                ObsReply::Done => p != PlainRequest::RecordStatus,
                ObsReply::Status { .. } => p == PlainRequest::RecordStatus,
                ObsReply::Capture(_) => false,
                ObsReply::Failed(_) => true,
            },
            ActionStage::Guard => reply matches ObsReply::Capture(c) && (c is Failed || fits(
                self.scan.question(),
                c,
            )),
        }
    }

    /// Whether, of what OBS answers, the run is on its way: a scan follows it, and
    /// a recording that is being started is not blind.
    pub open spec fn follows(self, w: Studio) -> bool {
        match self.stage {
            ActionStage::Guard => self.scan.follows(w),
            ActionStage::Waiting(p) => p == PlainRequest::RecordStart ==> !blind(w),
        }
    }

    /// Whether a reply is what OBS answers, as far as the scan is concerned.
    pub open spec fn told(self, w: Studio, reply: ObsReply) -> bool {
        match self.stage {
            ActionStage::Guard => reply matches ObsReply::Capture(c) && answers(
                w,
                self.scan.question(),
                c,
            ),
            ActionStage::Waiting(_) => true,
        }
    }

    /// What becomes of the run where a plain request was waited for.
    pub open spec fn plain_step(self, reply: ObsReply, after: ActionRun, next: ActionNext) -> bool {
        match reply {
            ObsReply::Done => next is Finished,
            ObsReply::Failed(e) => next == ActionNext::Failed(ActionError::Request(e)),
            ObsReply::Status { active, paused } => {
                &&& next matches ActionNext::Ask(request) && after.asks(request)
                &&& after.stage == toggle_stage(active, paused)
                &&& after.stage == ActionStage::Guard ==> after.scan.question()
                    == Question::ProgramScene
            },
            ObsReply::Capture(_) => true,
        }
    }

    /// What becomes of the run where the scan was on, whatever OBS answers: it
    /// goes on, fails with it, or ends in what the scan came to: a refusal where it
    /// found captures and none live, else the start of the recording.
    pub open spec fn guard_step(self, reply: ObsReply, after: ActionRun, next: ActionNext) -> bool {
        reply matches ObsReply::Capture(c) ==> exists|scanned: ScanNext|
            {
                &&& #[trigger] self.scan.is_advanced(c, after.scan, scanned)
                &&& match scanned {
                    ScanNext::Ask(request) => {
                        &&& next == ActionNext::Ask(ObsRequest::Capture(request))
                        &&& after.stage == ActionStage::Guard
                        &&& after.asks(ObsRequest::Capture(request))
                        &&& nearer(after.scan.distance(), self.scan.distance())
                    },
                    ScanNext::Failed(e) => next == ActionNext::Failed(ActionError::Request(e)),
                    ScanNext::Done { found, live } => if found && !live {
                        next == ActionNext::Failed(ActionError::Blind)
                    } else {
                        &&& after.stage == ActionStage::Waiting(PlainRequest::RecordStart)
                        &&& next matches ActionNext::Ask(request) && after.asks(request)
                    },
                }
            }
    }

    /// Begin an action.
    pub fn new(action: ObsAction) -> (r: ActionRun)
        ensures
            r.wf(),
            r.stage == first_stage(action),
            r.scan.question() == Question::ProgramScene,
            forall|w: Studio| #[trigger] r.follows(w),
    {
        let stage = match action {
            ObsAction::RecordStart => ActionStage::Guard,
            ObsAction::RecordStop => ActionStage::Waiting(PlainRequest::RecordStop),
            ObsAction::RecordTogglePause => ActionStage::Waiting(PlainRequest::RecordTogglePause),
            ObsAction::RecordToggle => ActionStage::Waiting(PlainRequest::RecordStatus),
            ObsAction::ReplayStart => ActionStage::Waiting(PlainRequest::ReplayStart),
            ObsAction::ReplayStop => ActionStage::Waiting(PlainRequest::ReplayStop),
            ObsAction::ReplayToggle => ActionStage::Waiting(PlainRequest::ReplayToggle),
            ObsAction::ReplaySave => ActionStage::Waiting(PlainRequest::ReplaySave),
        };
        ActionRun { stage, scan: CaptureScan::new() }
    }

    /// The request that waits for its reply.
    pub fn request(&self) -> (r: ObsRequest)
        requires
            self.wf(),
        ensures
            self.asks(r),
    {
        match self.stage {
            ActionStage::Waiting(p) => ObsRequest::Plain(p),
            ActionStage::Guard => ObsRequest::Capture(self.scan.request()),
        }
    }

    /// Take the reply to the request that waits for it. A recording is started
    /// only once the scan has shown that OBS isn't blind, and refused only if it
    /// has shown that it is.
    pub fn answer(&mut self, reply: ObsReply) -> (r: ActionNext)
        requires
            old(self).wf(),
            old(self).awaits(reply),
        ensures
            r is Ask ==> final(self).wf(),
            old(self).stage is Waiting ==> old(self).plain_step(reply, *final(self), r),
            old(self).stage is Guard ==> old(self).guard_step(reply, *final(self), r),
            forall|w: Studio|
                #[trigger] old(self).follows(w) && old(self).told(w, reply) ==> match r {
                    ActionNext::Ask(_) => final(self).follows(w),
                    ActionNext::Finished => true,
                    ActionNext::Failed(ActionError::Blind) => blind(w),
                    ActionNext::Failed(ActionError::Request(_)) => old(self).stage is Waiting,
                },
    {
        match reply {
            ObsReply::Done => ActionNext::Finished,
            ObsReply::Failed(e) => ActionNext::Failed(ActionError::Request(e)),
            ObsReply::Status { active, paused } => {
                self.stage = if paused {
                    ActionStage::Waiting(PlainRequest::RecordTogglePause)
                } else if active {
                    ActionStage::Waiting(PlainRequest::RecordStop)
                } else {
                    ActionStage::Guard
                };
                self.scan = CaptureScan::new();
                ActionNext::Ask(self.request())
            },
            ObsReply::Capture(c) => {
                let ghost given = c;
                let scanned = self.scan.answer(c);
                assert(old(self).scan.is_advanced(given, self.scan, scanned));
                match scanned {
                    ScanNext::Ask(request) => ActionNext::Ask(ObsRequest::Capture(request)),
                    ScanNext::Failed(e) => ActionNext::Failed(ActionError::Request(e)),
                    ScanNext::Done { found, live } => if found && !live {
                        ActionNext::Failed(ActionError::Blind)
                    } else {
                        self.stage = ActionStage::Waiting(PlainRequest::RecordStart);
                        ActionNext::Ask(self.request())
                    },
                }
            },
        }
    }
}

/// What a refused recording is answered.
pub const BLIND_DETAIL: &'static str = "OBS isn't capturing anything — its screen/window capture is 0x0 (was the \"Share screen\" picker dismissed?); refusing to record";

/// The words of an error.
pub open spec fn error_words(e: ActionError) -> Seq<char> {
    match e {
        ActionError::Request(detail) => detail@,
        ActionError::Blind => BLIND_DETAIL@,
    }
}

/// The event that tells the main loop how a command went: a failure is flashed on
/// its key; success is silent, as the resulting state arrives via an event.
pub fn handle_command(cmd: ObsCommand, error: Option<ActionError>) -> (r: Option<ObsEvent>)
    ensures
        match error {
            None => r is None,
            Some(e) => r matches Some(ObsEvent::ActionFailed { key, detail }) && key == cmd.key
                && detail@ == error_words(e),
        },
{
    match error {
        None => None,
        Some(ActionError::Request(detail)) => Some(
            ObsEvent::ActionFailed { key: cmd.key, detail },
        ),
        Some(ActionError::Blind) => Some(
            ObsEvent::ActionFailed { key: cmd.key, detail: BLIND_DETAIL.to_string() },
        ),
    }
}

// --- Sessions --------------------------------------------------------------

/// The state that a recording status shows.
pub open spec fn status_state(active: bool, paused: bool) -> RecordState {
    if !active {
        RecordState::Stopped
    } else if paused {
        RecordState::Paused
    } else {
        RecordState::Recording
    }
}

/// The state that the replay buffer shows.
pub open spec fn buffer_state(active: bool) -> ReplayState {
    if active {
        ReplayState::Armed
    } else {
        ReplayState::Disarmed
    }
}

fn replay_state(active: bool) -> (r: ReplayState)
    ensures
        r == buffer_state(active),
{
    if active {
        ReplayState::Armed
    } else {
        ReplayState::Disarmed
    }
}

/// A recording status as OBS reports it.
#[derive(Debug, Clone, Copy, PartialEq, Eq, Structural)]
pub struct RecordStatus {
    pub active: bool,
    pub paused: bool,
}

/// The events for the queried recording + replay-buffer state right after
/// connecting, so keys are correct even with no events yet. A query that failed
/// gives none: the replay buffer may be disabled in OBS settings, which is not
/// fatal.
pub fn send_initial_state(record: Option<RecordStatus>, replay: Option<bool>) -> (r: Vec<ObsEvent>)
    ensures
        r@ == (match record {
            Some(s) => seq![ObsEvent::Record(status_state(s.active, s.paused))],
            None => Seq::empty(),
        }) + (match replay {
            Some(active) => seq![ObsEvent::Replay(buffer_state(active))],
            None => Seq::empty(),
        }),
{
    let mut out: Vec<ObsEvent> = Vec::new();
    if let Some(s) = record {
        let state = if s.active {
            if s.paused {
                RecordState::Paused
            } else {
                RecordState::Recording
            }
        } else {
            RecordState::Stopped
        };
        out.push(ObsEvent::Record(state));
    }
    if let Some(active) = replay {
        out.push(ObsEvent::Replay(replay_state(active)));
    }
    out
}

/// Where an output is in its life.
#[derive(Debug, Clone, Copy, PartialEq, Eq, Structural)]
pub enum OutputPhase {
    Started,
    Resumed,
    Paused,
    Stopped,
    /// On its way from one to another.
    Transient,
}

/// What OBS notifies of.
#[derive(Debug, Clone, Copy, PartialEq, Eq, Structural)]
pub enum ObsNotice {
    RecordStateChanged { active: bool, phase: OutputPhase },
    ReplayBufferStateChanged { active: bool },
    Other,
}

/// The event that a notice amounts to. A transient phase falls back to the active
/// flag.
pub open spec fn notice_event(n: ObsNotice) -> Option<ObsEvent> {
    match n {
        ObsNotice::RecordStateChanged { active, phase } => Some(
            ObsEvent::Record(
                match phase {
                    OutputPhase::Started | OutputPhase::Resumed => RecordState::Recording,
                    OutputPhase::Paused => RecordState::Paused,
                    OutputPhase::Stopped => RecordState::Stopped,
                    OutputPhase::Transient => status_state(active, false),
                },
            ),
        ),
        ObsNotice::ReplayBufferStateChanged { active } => Some(
            ObsEvent::Replay(buffer_state(active)),
        ),
        ObsNotice::Other => None,
    }
}

/// The event that a notice amounts to.
pub fn handle_event(n: ObsNotice) -> (r: Option<ObsEvent>)
    ensures
        r == notice_event(n),
{
    match n {
        ObsNotice::RecordStateChanged { active, phase } => {
            let mapped = match phase {
                OutputPhase::Started | OutputPhase::Resumed => RecordState::Recording,
                OutputPhase::Paused => RecordState::Paused,
                OutputPhase::Stopped => RecordState::Stopped,
                OutputPhase::Transient => if active {
                    RecordState::Recording
                } else {
                    RecordState::Stopped
                },
            };
            Some(ObsEvent::Record(mapped))
        },
        ObsNotice::ReplayBufferStateChanged { active } => Some(
            ObsEvent::Replay(replay_state(active)),
        ),
        ObsNotice::Other => None,
    }
}

/// Why a session ended.
#[derive(Debug, Clone, Copy, PartialEq, Eq, Structural)]
pub enum SessionEnd {
    /// The main loop dropped the command sender: time to exit the thread.
    CommandChannelClosed,
    /// Lost the OBS connection: reconnect.
    Disconnected,
}

/// What happens to a session.
#[derive(Debug, Clone, Copy, PartialEq, Eq)]
pub enum SessionInput {
    /// A command arrived, or the command channel closed.
    Command(Option<ObsCommand>),
    /// OBS notified, or its event stream ended.
    Notice(Option<ObsNotice>),
    /// A capture poll came back, with what it found.
    Scanned { found: bool, live: bool },
    /// A capture poll failed.
    ScanFailed,
}

/// What a session does next.
#[derive(Debug, Clone)]
pub enum SessionStep {
    /// Run a command.
    Run(ObsCommand),
    /// Tell the main loop.
    Tell(ObsEvent),
    Wait,
    End(SessionEnd),
}

/// A session with OBS.
#[derive(Debug, Clone, Copy, PartialEq, Eq)]
pub struct Session {
    /// Whether capture liveness is polled.
    pub polls: bool,
    /// The capture liveness that the main loop was told last.
    pub last_capture_live: Option<bool>,
}

/// Whether OBS is capturing, or has no capture source at all.
pub open spec fn capturing(found: bool, live: bool) -> bool {
    !found || live
}

impl Session {
    /// A session that was just connected. Capture liveness is polled only when
    /// the user opted in.
    pub fn new(show_capture_status: bool) -> (r: Session)
        ensures
            r.polls == show_capture_status,
            r.last_capture_live is None,
    {
        Session { polls: show_capture_status, last_capture_live: None }
    }

    /// Take what happened. The main loop is told of capture liveness only when it
    /// changed.
    pub fn step(&mut self, input: SessionInput) -> (r: SessionStep)
        ensures
            final(self).polls == old(self).polls,
            final(self).last_capture_live == (match input {
                SessionInput::Scanned { found, live } => Some(capturing(found, live)),
                _ => old(self).last_capture_live,
            }),
            r == (match input {
                SessionInput::Command(Some(cmd)) => SessionStep::Run(cmd),
                SessionInput::Command(None) => SessionStep::End(SessionEnd::CommandChannelClosed),
                SessionInput::Notice(Some(n)) => match notice_event(n) {
                    Some(e) => SessionStep::Tell(e),
                    None => SessionStep::Wait,
                },
                SessionInput::Notice(None) => SessionStep::End(SessionEnd::Disconnected),
                SessionInput::Scanned { found, live } => if old(self).last_capture_live == Some(
                    capturing(found, live),
                ) {
                    SessionStep::Wait
                } else {
                    SessionStep::Tell(ObsEvent::CaptureLive(capturing(found, live)))
                },
                SessionInput::ScanFailed => SessionStep::Wait,
            }),
    {
        match input {
            SessionInput::Command(Some(cmd)) => SessionStep::Run(cmd),
            SessionInput::Command(None) => SessionStep::End(SessionEnd::CommandChannelClosed),
            SessionInput::Notice(Some(n)) => match handle_event(n) {
                Some(e) => SessionStep::Tell(e),
                None => SessionStep::Wait,
            },
            SessionInput::Notice(None) => SessionStep::End(SessionEnd::Disconnected),
            SessionInput::Scanned { found, live } => {
                let now = !found || live;
                let known = match self.last_capture_live {
                    Some(last) => last == now,
                    None => false,
                };
                if known {
                    SessionStep::Wait
                } else {
                    self.last_capture_live = Some(now);
                    SessionStep::Tell(ObsEvent::CaptureLive(now))
                }
            },
            SessionInput::ScanFailed => SessionStep::Wait,
        }
    }
}

// --- The connection --------------------------------------------------------

/// Sessions shorter than this many milliseconds are treated as flapping (backoff
/// keeps growing); longer ones reset it.
pub const STABLE_SESSION_DWELL_MS: u64 = 30000;

/// Command channel depth: commands are infrequent (button presses).
pub const CMD_CHANNEL_DEPTH: usize = 32;

/// Capture-liveness poll cadence, in milliseconds.
pub const CAPTURE_POLL_INTERVAL_MS: u64 = 1000;

/// What happens to the connection.
#[derive(Debug, Clone, Copy, PartialEq, Eq, Structural)]
pub enum LinkInput {
    Connected,
    ConnectFailed,
    /// The session ended, after so many milliseconds.
    SessionOver { end: SessionEnd, lasted_ms: u64 },
}

/// What is done about the connection next.
#[derive(Debug, Clone, Copy, PartialEq, Eq, Structural)]
pub enum LinkStep {
    RunSession,
    /// Connect, after so many seconds.
    ConnectAfter(u64),
    Exit,
}

/// The connection to OBS, which reconnects with exponential backoff.
#[derive(Debug, Clone, Copy, PartialEq, Eq, Structural)]
pub struct Link {
    pub backoff: Backoff,
}

/// The event that the main loop is told of when something happens to the
/// connection.
pub open spec fn link_event(input: LinkInput) -> Option<ObsEvent> {
    match input {
        LinkInput::Connected => Some(ObsEvent::Connected),
        LinkInput::ConnectFailed => None,
        LinkInput::SessionOver { .. } => Some(ObsEvent::Disconnected),
    }
}

impl Link {
    /// The backoff is one that failures lead to.
    pub open spec fn wf(self) -> bool {
        self.backoff.wf()
    }

    /// A connection that is about to be made for the first time.
    pub fn new() -> (r: Link)
        ensures
            r.wf(),
            r.backoff.secs == BACKOFF_INITIAL_SECS,
    {
        Link { backoff: Backoff::new() }
    }

    /// Take what happened: what the main loop is told, and what is done next. A
    /// session that stayed up past the dwell resets the backoff and is followed
    /// by another attempt at once; everything else waits, longer each time.
    pub fn step(&mut self, input: LinkInput) -> (r: (Option<ObsEvent>, LinkStep))
        requires
            old(self).wf(),
        ensures
            final(self).wf(),
            r.0 == link_event(input),
            match input {
                LinkInput::Connected => r.1 == LinkStep::RunSession && final(self).backoff == old(
                    self,
                ).backoff,
                LinkInput::ConnectFailed => r.1 == LinkStep::ConnectAfter(old(self).backoff.secs)
                    && final(self).backoff.secs == backoff::doubled(old(self).backoff.secs as int),
                LinkInput::SessionOver { end: SessionEnd::CommandChannelClosed, .. } => r.1
                    == LinkStep::Exit && final(self).backoff == old(self).backoff,
                LinkInput::SessionOver { end: SessionEnd::Disconnected, lasted_ms } => if lasted_ms
                    >= STABLE_SESSION_DWELL_MS {
                    r.1 == LinkStep::ConnectAfter(0) && final(self).backoff.secs
                        == BACKOFF_INITIAL_SECS
                } else {
                    r.1 == LinkStep::ConnectAfter(old(self).backoff.secs)
                        && final(self).backoff.secs == backoff::doubled(
                        old(self).backoff.secs as int,
                    )
                },
            },
    {
        match input {
            LinkInput::Connected => (Some(ObsEvent::Connected), LinkStep::RunSession),
            LinkInput::ConnectFailed => (None, LinkStep::ConnectAfter(self.backoff.next())),
            LinkInput::SessionOver { end, lasted_ms } => {
                let step = match end {
                    SessionEnd::CommandChannelClosed => LinkStep::Exit,
                    SessionEnd::Disconnected => if lasted_ms >= STABLE_SESSION_DWELL_MS {
                        self.backoff = Backoff::new();
                        LinkStep::ConnectAfter(0)
                    } else {
                        LinkStep::ConnectAfter(self.backoff.next())
                    },
                };
                (Some(ObsEvent::Disconnected), step)
            },
        }
    }
}

/// The largest number that the last of `parts` parts of an IPv4 address can be: it
/// stands for all the bytes that the parts before it leave.
pub open spec fn last_part_max(parts: int) -> nat {
    if parts == 2 {
        16777215
    } else if parts == 3 {
        65535
    } else {
        255
    }
}

/// Whether a text is an IPv4 address of the loopback network: decimal parts, the
/// first of them 127, and four in all, or fewer where the last stands for the bytes
/// that are left (`127.1`).
pub open spec fn is_loopback_address(host: Seq<char>) -> bool {
    let parts = text::split_on(host, '.');
    &&& 2 <= parts.len() <= 4
    &&& parts[0] == "127"@
    &&& forall|i: int|
        1 <= i < parts.len() ==> (#[trigger] parts[i]).len() > 0 && text::all_digits(parts[i])
            && text::number(parts[i]) <= (if i == parts.len() - 1 {
            last_part_max(parts.len() as int)
        } else {
            255
        })
}

/// Whether a host is loopback.
pub open spec fn is_local(host: Seq<char>) -> bool {
    host == "localhost"@ || host == "::1"@ || is_loopback_address(host)
}

/// Whether a host is an IPv4 address of the loopback network.
fn loopback_address(host: &Vec<char>) -> (r: bool)
    ensures
        r == is_loopback_address(host@),
{
    let parts = text::split(host, '.');
    let ghost all = text::split_on(host@, '.');
    let n: usize = parts.len();
    if n < 2 || n > 4 {
        return false;
    }
    assert(all[0] == parts@[0]@);
    if !text::same(&parts[0], "127") {
        return false;
    }
    let last_max: u64 = if n == 2 {
        16777215
    } else if n == 3 {
        65535
    } else {
        255
    };
    let mut i: usize = 1;
    while i < n
        invariant
            all == text::split_on(host@, '.'),
            all == text::chars_views(parts@),
            n == parts.len(),
            2 <= n <= 4,
            last_max == last_part_max(n as int),
            1 <= i <= n,
            forall|j: int|
                1 <= j < i ==> (#[trigger] all[j]).len() > 0 && text::all_digits(all[j])
                    && text::number(all[j]) <= (if j == n - 1 {
                    last_part_max(n as int)
                } else {
                    255
                }),
        decreases n - i,
    {
        assert(all[i as int] == parts@[i as int]@);
        let max: u64 = if i == n - 1 {
            last_max
        } else {
            255
        };
        if text::parse_digits(&parts[i], max).is_none() {
            return false;
        }
        i = i + 1;
    }
    true
}

/// Whether the OBS host is loopback (so the cleartext-password warning can be
/// suppressed for local connections).
pub fn host_is_local(host: &str) -> (r: bool)
    ensures
        r == is_local(host@),
{
    let h = text::chars(host);
    text::same(&h, "localhost") || text::same(&h, "::1") || loopback_address(&h)
}

/// Whether connecting would send a password in cleartext over the network:
/// obs-websocket is plain ws:// with no TLS.
pub fn password_in_cleartext(password: &Option<String>, host: &str) -> (r: bool)
    ensures
        r == (password is Some && !is_local(host@)),
{
    password.is_some() && !host_is_local(host)
}

// --- Laws ------------------------------------------------------------------

/// A capture is an input whose kind speaks of a capture source; it counts where it
/// is enabled, and is live where it has dimensions.
pub proof fn captures_count_where_enabled(w: Studio, scene: Seq<char>, item: SceneItem)
    ensures
        is_capture(item) <==> match item.kind {
            Some(kind) => text::occurs(kind@, "capture-source"@),
            None => false,
        },
        is_group(item) <==> item.is_group == Some(true),
        liveness(w, scene, item) is Some <==> is_capture(item) && (w.enabled)(scene, item.id),
        liveness(w, scene, item) == Some(true) <==> is_capture(item) && (w.enabled)(scene, item.id)
            && (w.live)(scene, item.id),
{
}

/// An item is in scope where it stands in the program scene itself, or in a group
/// of that scene that is enabled; in no other scene and no disabled group.
pub proof fn scope_is_the_scene_and_its_groups(
    w: Studio,
    items: Seq<SceneItem>,
    scene: Seq<char>,
    item: SceneItem,
    g: SceneItem,
)
    requires
        is_capture(item),
        (w.enabled)(scene, item.id),
    ensures
        scene == w.scene && items.contains(item) ==> counts(w, items, scene, item),
        items.contains(g) && g.is_group == Some(true) && (w.enabled)(w.scene, g.id) && g.name@
            == scene && (w.members)(scene).contains(item) ==> counts(w, items, scene, item),
        counts(w, items, scene, item) && scene != w.scene ==> exists|h: SceneItem| #[trigger]
            items.contains(h) && h.is_group == Some(true) && (w.enabled)(w.scene, h.id) && h.name@
                == scene,
{
}

/// OBS is blind exactly where an enabled capture is in scope and none in scope
/// produces video: a scene without captures is not.
pub proof fn blind_is_all_dark(w: Studio)
    ensures
        blind(w) <==> {
            &&& exists|scene: Seq<char>, m: SceneItem| #[trigger]
                counts(w, (w.items)(w.scene), scene, m)
            &&& forall|scene: Seq<char>, m: SceneItem| #[trigger]
                counts(w, (w.items)(w.scene), scene, m) ==> !(w.live)(scene, m.id)
        },
{
    scan_sees_what_is_in_scope(w);
}

/// A request asks the question it is named after, about the scene, group and item
/// that it holds.
pub proof fn requests_ask_their_question(scene: String, id: i64)
    ensures
        CaptureRequest::ProgramScene@ == Question::ProgramScene,
        (CaptureRequest::Items { scene })@ == Question::Items(scene@),
        (CaptureRequest::Enabled { scene, id })@ == Question::Enabled(scene@, id),
        (CaptureRequest::Dimensions { scene, id })@ == Question::Dimensions(scene@, id),
        (CaptureRequest::Members { group: scene })@ == Question::Members(scene@),
{
}

/// Each action begins with the request that it is named after, but for the start
/// of a recording, which is guarded, and the recording toggle, which asks for the
/// state first. So no two actions begin alike.
pub proof fn actions_begin_with_their_request(run: ActionRun, action: ObsAction, other: ObsAction)
    requires
        run.stage == first_stage(action),
    ensures
        match action {
            ObsAction::RecordStart => run.stage == ActionStage::Guard && forall|p: PlainRequest|
                !(#[trigger] run.asks(ObsRequest::Plain(p))),
            ObsAction::RecordStop => run.asks(ObsRequest::Plain(PlainRequest::RecordStop)),
            ObsAction::RecordTogglePause => run.asks(
                ObsRequest::Plain(PlainRequest::RecordTogglePause),
            ),
            ObsAction::RecordToggle => run.asks(ObsRequest::Plain(PlainRequest::RecordStatus)),
            ObsAction::ReplayStart => run.asks(ObsRequest::Plain(PlainRequest::ReplayStart)),
            ObsAction::ReplayStop => run.asks(ObsRequest::Plain(PlainRequest::ReplayStop)),
            ObsAction::ReplayToggle => run.asks(ObsRequest::Plain(PlainRequest::ReplayToggle)),
            ObsAction::ReplaySave => run.asks(ObsRequest::Plain(PlainRequest::ReplaySave)),
        },
        first_stage(other) == first_stage(action) ==> other == action,
{
}

/// A run waits for one request only: the plain one that it is at, or the scan's
/// own question.
pub proof fn one_request_at_a_time(run: ActionRun, p: PlainRequest, q: PlainRequest, c: CaptureRequest)
    ensures
        run.stage == ActionStage::Waiting(p) ==> (run.asks(ObsRequest::Plain(q)) <==> p == q)
            && !run.asks(ObsRequest::Capture(c)),
        run.stage == ActionStage::Guard ==> !run.asks(ObsRequest::Plain(p)) && (run.asks(
            ObsRequest::Capture(c),
        ) <==> c@ == run.scan.question()),
{
}

/// The recording toggle, once it knows the state: a paused recording is resumed, a
/// running one stopped, and where none runs the scan begins that guards a start.
pub proof fn toggling_goes_by_the_state(
    run: ActionRun,
    active: bool,
    paused: bool,
    after: ActionRun,
    next: ActionNext,
)
    requires
        run.plain_step(ObsReply::Status { active, paused }, after, next),
    ensures
        paused ==> next == ActionNext::Ask(ObsRequest::Plain(PlainRequest::RecordTogglePause)),
        active && !paused ==> next == ActionNext::Ask(ObsRequest::Plain(PlainRequest::RecordStop)),
        !active && !paused ==> (next matches ActionNext::Ask(ObsRequest::Capture(c)) && c@
            == Question::ProgramScene),
{
}

/// A plain request ends the action: well where OBS did it, and with what OBS
/// replied where that failed.
pub proof fn plain_requests_end_the_action(
    run: ActionRun,
    e: String,
    after: ActionRun,
    next: ActionNext,
)
    ensures
        run.plain_step(ObsReply::Done, after, next) ==> next is Finished,
        run.plain_step(ObsReply::Failed(e), after, next) ==> next == ActionNext::Failed(
            ActionError::Request(e),
        ),
{
}

/// Once the last capture in question was looked at, the recording starts where
/// none was found or one was live, and is refused where all are dark.
pub proof fn recording_starts_where_something_is_captured(
    run: ActionRun,
    live: bool,
    after: ActionRun,
    next: ActionNext,
)
    requires
        run.stage == ActionStage::Guard,
        run.scan.stage == ScanStage::ItemLive,
        0 <= run.scan.item < run.scan.items.len(),
        !is_group(run.scan.current()),
        run.scan.item + 1 == run.scan.items.len(),
        run.guard_step(ObsReply::Capture(CaptureReply::Flag(live)), after, next),
    ensures
        live || run.scan.live ==> next == ActionNext::Ask(
            ObsRequest::Plain(PlainRequest::RecordStart),
        ),
        !live && !run.scan.live ==> next == ActionNext::Failed(ActionError::Blind),
{
}

/// The scan passes over exactly the items that are neither capture nor group, and
/// over exactly the members that are no capture.
pub proof fn scan_stops_at_what_counts(items: Seq<SceneItem>, from: int)
    requires
        0 <= from <= items.len(),
    ensures
        from <= item_from(items, from) <= items.len(),
        item_from(items, from) < items.len() ==> is_capture(items[item_from(items, from)])
            || is_group(items[item_from(items, from)]),
        forall|k: int|
            from <= k < item_from(items, from) ==> !is_capture(#[trigger] items[k]) && !is_group(
                items[k],
            ),
        from <= member_from(items, from) <= items.len(),
        member_from(items, from) < items.len() ==> is_capture(items[member_from(items, from)]),
        forall|k: int|
            from <= k < member_from(items, from) ==> !is_capture(#[trigger] items[k]),
    decreases items.len() - from,
{
    if from < items.len() {
        scan_stops_at_what_counts(items, from + 1);
    }
}

/// A failed action is answered with OBS's own words, and a refused recording with
/// the words for that.
pub proof fn failures_are_answered_in_words(detail: String)
    ensures
        error_words(ActionError::Request(detail)) == detail@,
        error_words(ActionError::Blind) == BLIND_DETAIL@,
{
}

/// A recording shows as stopped where it is not active, else as paused or running;
/// a replay buffer shows as armed where it is active.
pub proof fn status_shows_the_state(active: bool, paused: bool)
    ensures
        status_state(active, paused) == RecordState::Stopped <==> !active,
        status_state(active, paused) == RecordState::Paused <==> active && paused,
        status_state(active, paused) == RecordState::Recording <==> active && !paused,
        buffer_state(active) == ReplayState::Armed <==> active,
        buffer_state(active) == ReplayState::Disarmed <==> !active,
{
}

/// A notice tells of the state that a query would show once it took effect: a
/// recording that started or resumed runs, one that paused is paused, one that
/// stopped is stopped, and while it changes its active flag counts. The replay
/// buffer's flag counts too, and nothing else is told of.
pub proof fn notices_tell_of_the_state(active: bool, paused: bool)
    ensures
        ({
            let told = |phase: OutputPhase|
                notice_event(ObsNotice::RecordStateChanged { active, phase });
            &&& told(OutputPhase::Started) == Some(ObsEvent::Record(RecordState::Recording))
            &&& told(OutputPhase::Resumed) == Some(ObsEvent::Record(RecordState::Recording))
            &&& told(OutputPhase::Paused) == Some(ObsEvent::Record(RecordState::Paused))
            &&& told(OutputPhase::Stopped) == Some(ObsEvent::Record(RecordState::Stopped))
            &&& told(OutputPhase::Transient) == Some(
                ObsEvent::Record(
                    if active {
                        RecordState::Recording
                    } else {
                        RecordState::Stopped
                    },
                ),
            )
        }),
        notice_event(ObsNotice::ReplayBufferStateChanged { active }) == Some(
            ObsEvent::Replay(
                if active {
                    ReplayState::Armed
                } else {
                    ReplayState::Disarmed
                },
            ),
        ),
        notice_event(ObsNotice::Other) is None,
{
}

/// OBS counts as capturing unless there are captures and none of them is live.
pub proof fn capturing_unless_all_dark(found: bool, live: bool, w: Studio)
    ensures
        !capturing(found, live) <==> found && !live,
        capturing(scan_result(w).0, scan_result(w).1) <==> !blind(w),
{
}

/// The main loop is told that OBS is there once connecting worked, and that it is
/// gone once a session is over, whatever ended it.
pub proof fn the_link_is_told_of(end: SessionEnd, lasted_ms: u64)
    ensures
        link_event(LinkInput::Connected) == Some(ObsEvent::Connected),
        link_event(LinkInput::ConnectFailed) is None,
        link_event(LinkInput::SessionOver { end, lasted_ms }) == Some(ObsEvent::Disconnected),
{
}

/// The four-part addresses of the loopback network are those from 127.0.0.0 to
/// 127.255.255.255, however their parts are written.
pub proof fn loopback_is_one_network(
    a: Seq<char>,
    b: nat,
    c: nat,
    d: nat,
)
    requires
        !a.contains('.'),
    ensures
        is_local(
            a.push('.') + text::decimal(b).push('.') + text::decimal(c).push('.') + text::decimal(
                d,
            ),
        ) <==> a == "127"@ && b <= 255 && c <= 255 && d <= 255,
{
    let x = text::decimal(b);
    let y = text::decimal(c);
    let z = text::decimal(d);
    let host = a.push('.') + x.push('.') + y.push('.') + z;
    text::decimal_reads_back(b);
    text::decimal_reads_back(c);
    text::decimal_reads_back(d);
    no_dots(x);
    no_dots(y);
    no_dots(z);
    text::pieces_of_a_joined_text(y, '.', z);
    let yz = y.push('.') + z;
    text::pieces_of_a_joined_text(x, '.', yz);
    let xyz = x.push('.') + yz;
    text::pieces_of_a_joined_text(a, '.', xyz);
    text::pieces_of_a_joined_text(x, '.', a);
    text::pieces_of_a_joined_text(a, '.', x);
    text::pieces_of_a_joined_text(a, '.', y);
    assert(host =~= a.push('.') + xyz);
    let parts = text::split_on(host, '.');
    assert(parts =~= seq![a, x, y, z]);
    assert(parts[1] == x && parts[2] == y && parts[3] == z);
    reveal_strlit("localhost");
    reveal_strlit("::1");
    assert(host[a.len() as int] == '.');
    assert(!"localhost"@.contains('.'));
    assert(!"::1"@.contains('.'));
    assert(host.contains('.'));
}

proof fn no_dots(s: Seq<char>)
    requires
        text::all_digits(s),
    ensures
        !s.contains('.'),
{
    assert forall|i: int| 0 <= i < s.len() implies s[i] != '.' by {
        assert(text::is_digit(s[i]));
    }
}

/// A name without a dot is local only where it is one of the two that are.
pub proof fn local_names(host: Seq<char>)
    requires
        !host.contains('.'),
    ensures
        is_local(host) <==> host == "localhost"@ || host == "::1"@,
{
    text::pieces_of_a_joined_text(host, '.', host);
    assert(text::split_on(host, '.') =~= seq![host]);
}

/// Shorter addresses give the bytes they leave out to their last part.
pub proof fn short_loopback_addresses(b: nat, c: nat)
    ensures
        is_local("127"@.push('.') + text::decimal(c)) <==> c < 256 * 256 * 256,
        is_local("127"@.push('.') + text::decimal(b).push('.') + text::decimal(c)) <==> b <= 255
            && c < 256 * 256,
{
    reveal_strlit("127");
    reveal_strlit("localhost");
    reveal_strlit("::1");
    let a = "127"@;
    assert(!a.contains('.'));
    let x = text::decimal(b);
    let y = text::decimal(c);
    text::decimal_reads_back(b);
    text::decimal_reads_back(c);
    no_dots(x);
    no_dots(y);
    text::pieces_of_a_joined_text(a, '.', y);
    text::pieces_of_a_joined_text(y, '.', a);
    text::pieces_of_a_joined_text(y, '.', x);
    text::pieces_of_a_joined_text(x, '.', y);
    let two = a.push('.') + y;
    let xy = x.push('.') + y;
    text::pieces_of_a_joined_text(a, '.', xy);
    let three = a.push('.') + x.push('.') + y;
    assert(three =~= a.push('.') + xy);
    assert(text::split_on(two, '.') =~= seq![a, y]);
    assert(text::split_on(three, '.') =~= seq![a, x, y]);
    assert(text::split_on(two, '.')[1] == y);
    assert(text::split_on(three, '.')[1] == x && text::split_on(three, '.')[2] == y);
    assert(two[0] == '1' && three[0] == '1');
    assert("localhost"@[0] == 'l');
    assert("::1"@[0] == ':');
}

/// A scene without captures and groups keeps no recording from starting, whatever
/// else is in it.
pub proof fn recording_starts_without_captures(
    run: ActionRun,
    list: Vec<SceneItem>,
    after: ActionRun,
    next: ActionNext,
)
    requires
        run.stage == ActionStage::Guard,
        run.scan.stage == ScanStage::Items,
        run.scan.wf(),
        forall|i: int|
            0 <= i < list@.len() ==> !is_capture(#[trigger] list@[i]) && !is_group(list@[i]),
        run.guard_step(ObsReply::Capture(CaptureReply::Items(list)), after, next),
    ensures
        next == ActionNext::Ask(ObsRequest::Plain(PlainRequest::RecordStart)),
{
    scan_stops_at_what_counts(list@, 0);
}

/// What OBS fails to answer during the scan fails the action, with OBS's words, and
/// starts nothing.
pub proof fn failed_scans_start_nothing(
    run: ActionRun,
    e: String,
    after: ActionRun,
    next: ActionNext,
)
    requires
        run.stage == ActionStage::Guard,
        run.guard_step(ObsReply::Capture(CaptureReply::Failed(e)), after, next),
    ensures
        next == ActionNext::Failed(ActionError::Request(e)),
{
}

/// A reply answers a question where it is what the studio has there: the scene's
/// name, the items of a scene, the members of a group, whether an item is enabled,
/// whether it has dimensions.
pub proof fn answers_are_what_is_there(
    w: Studio,
    scene: Seq<char>,
    id: i64,
    name: String,
    list: Vec<SceneItem>,
    flag: bool,
)
    ensures
        answers(w, Question::ProgramScene, CaptureReply::Scene(name)) <==> name@ == w.scene,
        answers(w, Question::Items(scene), CaptureReply::Items(list)) <==> list@ == (w.items)(
            scene,
        ),
        answers(w, Question::Members(scene), CaptureReply::Items(list)) <==> list@ == (w.members)(
            scene,
        ),
        answers(w, Question::Enabled(scene, id), CaptureReply::Flag(flag)) <==> flag == (w.enabled)(
            scene,
            id,
        ),
        answers(w, Question::Dimensions(scene, id), CaptureReply::Flag(flag)) <==> flag == (w.live)(
            scene,
            id,
        ),
{
}

/// A scan that was answered by the studio goes on as one, or ends with what is in
/// scope: whether there is an enabled capture, and whether one of them is live.
pub proof fn followed_scans_end_in_what_is_there(scan: CaptureScan, w: Studio, next: ScanNext)
    requires
        scan.leads(w, next),
    ensures
        next is Ask ==> scan.follows(w),
        next !is Failed,
        next is Done ==> {
            &&& next->found <==> exists|scene: Seq<char>, m: SceneItem| #[trigger]
                counts(w, (w.items)(w.scene), scene, m)
            &&& next->live <==> exists|scene: Seq<char>, m: SceneItem| #[trigger]
                counts(w, (w.items)(w.scene), scene, m) && (w.live)(scene, m.id)
        },
{
    scan_sees_what_is_in_scope(w);
}

/// A recording is asked to start only where the studio that answered the scan is not
/// blind; the scan's answers are the studio's.
pub proof fn only_sighted_recordings_start(
    run: ActionRun,
    w: Studio,
    c: CaptureReply,
)
    requires
        run.follows(w),
    ensures
        run.asks(ObsRequest::Plain(PlainRequest::RecordStart)) ==> !blind(w),
        run.stage == ActionStage::Guard ==> run.scan.follows(w) && (run.told(
            w,
            ObsReply::Capture(c),
        ) <==> answers(w, run.scan.question(), c)),
{
}

} // verus!
