//! The launch screen: everything that can be started or returned to, in one
//! list, grouped by where each session lives.

use vstd::prelude::*;
use vstd::string::*;

use crate::offsets::{can_cut, cut, cut_bytes};
use crate::store::{mode_label, mode_text, Activity, LastMessage, SessionSummary, KIND_AGENT_CHAT};
use crate::text::{
    chars_of, clone_opt, concat2, concat3, concat4, decimal, decimal_of, opt_view, same, same_opt,
    str_view, string_of, string_views, trim, trim_chars,
};
use crate::tui::render::{
    clip, clipped, highlight_rows, highlighted, home_relative, home_relative_text, identicon,
    mark_text, mark_tone,
};
use crate::tui::rows::{
    blank, blank_row, frame, frame_text, ink, one_span, pieces_stand_one_behind_the_other,
    plain_row, push_row, push_span, row_of, row_views, span, span_of, span_views, two_spans, Row, RowView, Span, SpanView, Tone,
};
use crate::tui::transcript::{align_left, left_aligned};

verus! {

/// A session in the list.
#[derive(Debug, Clone, PartialEq, Eq)]
pub struct SessionRow {
    pub id: String,
    pub kind: String,
    pub title: String,
    pub updated_at: i64,
    /// Where the session was started; `None` where that was not recorded.
    pub working_dir: Option<String>,
    /// Where the session left off; `None` for one that was never used.
    pub last: Option<LastMessage>,
    /// What its process says it is doing.
    pub activity: Option<Activity>,
    /// What goes with that: for an approval, what is asked.
    pub activity_detail: Option<String>,
}

/// What is shown of a session.
#[derive(Debug, Clone, Copy, PartialEq, Eq, Structural)]
pub enum LastState {
    /// A request is on its way.
    Working,
    /// It waits for an answer.
    AwaitingApproval,
    /// The last turn ended in an error.
    Failed,
    /// It was never used.
    New,
    /// The model answered.
    Replied,
    /// A message was sent and nothing came back.
    NoReply,
    /// It stopped part-way.
    Interrupted,
}

/// The row that a saved session comes to: where it left off is filled in
/// later.
pub open spec fn row_of_summary(summary: SessionSummary) -> SessionRow {
    SessionRow {
        id: summary.id,
        kind: summary.kind,
        title: summary.title,
        updated_at: summary.updated_at,
        working_dir: summary.working_dir,
        last: None,
        activity: summary.activity,
        activity_detail: summary.activity_detail,
    }
}

impl From<SessionSummary> for SessionRow {
    fn from(summary: SessionSummary) -> (r: Self) {
        SessionRow {
            id: summary.id,
            kind: summary.kind,
            title: summary.title,
            updated_at: summary.updated_at,
            working_dir: summary.working_dir,
            last: None,
            activity: summary.activity,
            activity_detail: summary.activity_detail,
        }
    }
}

impl vstd::std_specs::convert::FromSpecImpl<SessionSummary> for SessionRow {
    open spec fn obeys_from_spec() -> bool {
        true
    }

    open spec fn from_spec(summary: SessionSummary) -> Self {
        row_of_summary(summary)
    }
}

/// What a session shows: its process's own word where it gave one, and
/// otherwise what its last message says.
pub open spec fn state_of(activity: Option<Activity>, last: Option<LastMessage>) -> LastState {
    match activity {
        Some(Activity::Working) => LastState::Working,
        Some(Activity::AwaitingApproval) => LastState::AwaitingApproval,
        Some(Activity::Failed) => LastState::Failed,
        None => match last {
            None => LastState::New,
            Some(m) => if m.role@ == "assistant"@ {
                if m.has_tool_calls {
                    LastState::Interrupted
                } else {
                    LastState::Replied
                }
            } else if m.role@ == "tool"@ {
                LastState::Interrupted
            } else {
                LastState::NoReply
            },
        },
    }
}

/// The line behind the state: what is asked takes the place of what was last
/// said.
pub open spec fn preview_of(row: SessionRow) -> Option<Seq<char>> {
    if row.activity == Some(Activity::AwaitingApproval) && row.activity_detail is Some {
        Some("needs approval \u{2014} "@ + row.activity_detail->0@)
    } else {
        match row.last {
            Some(m) => if m.preview@.len() > 0 {
                Some(m.preview@)
            } else {
                None
            },
            None => None,
        }
    }
}

impl SessionRow {
    /// The first eight bytes of the id, or all of a shorter one.
    pub fn short_id(&self) -> (r: &str)
        requires
            can_cut(self.id@, 8),
        ensures
            r@ == cut(self.id@, 8),
    {
        cut_bytes(&self.id, 8)
    }

    /// Whether the session has tools.
    pub fn is_agentic(&self) -> (r: bool)
        ensures
            r == (self.kind@ == KIND_AGENT_CHAT@),
    {
        same(&self.kind, KIND_AGENT_CHAT)
    }

    /// What the session shows.
    pub fn last_state(&self) -> (r: LastState)
        ensures
            r == state_of(self.activity, self.last),
    {
        match self.activity {
            Some(Activity::Working) => {
                return LastState::Working;
            },
            Some(Activity::AwaitingApproval) => {
                return LastState::AwaitingApproval;
            },
            Some(Activity::Failed) => {
                return LastState::Failed;
            },
            None => {},
        }
        match &self.last {
            None => LastState::New,
            Some(m) => {
                if same(&m.role, "assistant") {
                    if m.has_tool_calls {
                        LastState::Interrupted
                    } else {
                        LastState::Replied
                    }
                } else if same(&m.role, "tool") {
                    LastState::Interrupted
                } else {
                    LastState::NoReply
                }
            },
        }
    }

    /// The line behind the state, where there is one worth showing.
    pub fn preview(&self) -> (r: Option<String>)
        ensures
            opt_view(r) == preview_of(*self),
    {
        let waits: bool = match self.activity {
            Some(Activity::AwaitingApproval) => true,
            _ => false,
        };
        if waits {
            match &self.activity_detail {
                Some(detail) => {
                    return Some(concat2("needs approval \u{2014} ", detail));
                },
                None => {},
            }
        }
        match &self.last {
            Some(m) => {
                if m.preview.as_str().is_empty() {
                    None
                } else {
                    Some(m.preview.clone())
                }
            },
            None => None,
        }
    }

    /// The same row.
    pub fn copied(&self) -> (r: Self)
        ensures
            r == *self,
    {
        SessionRow {
            id: self.id.clone(),
            kind: self.kind.clone(),
            title: self.title.clone(),
            updated_at: self.updated_at,
            working_dir: clone_opt(&self.working_dir),
            last: match &self.last {
                Some(m) => Some(
                    LastMessage {
                        role: m.role.clone(),
                        has_tool_calls: m.has_tool_calls,
                        preview: m.preview.clone(),
                    },
                ),
                None => None,
            },
            activity: self.activity,
            activity_detail: clone_opt(&self.activity_detail),
        }
    }
}

/// An entry of the launch screen.
#[derive(Debug, Clone, PartialEq, Eq)]
pub enum LaunchItem {
    NewSession,
    /// The label of a section, which the cursor steps over.
    Header(&'static str),
    Resume(SessionRow),
}

/// What choosing an entry means.
#[derive(Debug, Clone, PartialEq, Eq)]
pub enum Activation {
    NewSession,
    Resume(SessionRow),
    Delete(SessionRow),
    /// The session's directory is gone; it is resumed in the current one.
    Repoint(SessionRow),
}

/// The label of the sessions of the current directory.
pub const HERE_SECTION: &'static str = "In this directory";

/// The label of the others.
pub const ELSEWHERE_SECTION: &'static str = "Elsewhere";

/// The launch screen.
#[derive(Debug)]
pub struct Picker {
    pub items: Vec<LaunchItem>,
    pub selected: usize,
    /// The session whose deletion waits for a yes.
    pub confirming_delete: Option<SessionRow>,
    /// The session that is being renamed, and the title typed so far.
    pub renaming: Option<(SessionRow, String)>,
    /// The session that can be resumed here, and the directory that is gone.
    pub confirming_repoint: Option<(SessionRow, String)>,
    /// The ids of the sessions in each section.
    pub here: Vec<String>,
    pub elsewhere: Vec<String>,
    /// Why the last attempt to open a session failed.
    pub notice: Option<String>,
}

/// An entry with the characters of a label.
pub enum Entry {
    New,
    Header(Seq<char>),
    Row(SessionRow),
}

pub open spec fn entry_of(item: LaunchItem) -> Entry {
    match item {
        LaunchItem::NewSession => Entry::New,
        LaunchItem::Header(label) => Entry::Header(label@),
        LaunchItem::Resume(row) => Entry::Row(row),
    }
}

pub open spec fn entries(items: Seq<LaunchItem>) -> Seq<Entry> {
    items.map_values(|i: LaunchItem| entry_of(i))
}

/// A section: its label and its rows, or nothing where it has none.
pub open spec fn section(label: Seq<char>, rows: Seq<SessionRow>) -> Seq<Entry> {
    if rows.len() == 0 {
        Seq::empty()
    } else {
        seq![Entry::Header(label)] + rows.map_values(|r: SessionRow| Entry::Row(r))
    }
}

/// The whole list: a new session first, then the two sections.
pub open spec fn listed(here: Seq<SessionRow>, elsewhere: Seq<SessionRow>) -> Seq<Entry> {
    seq![Entry::New] + section(HERE_SECTION@, here) + section(ELSEWHERE_SECTION@, elsewhere)
}

/// Whether a session belongs to a directory. One without a recorded directory
/// belongs to none.
pub open spec fn lives_in(row: SessionRow, cwd: Option<Seq<char>>) -> bool {
    cwd is Some && opt_view(row.working_dir) == cwd
}

pub open spec fn living_in(cwd: Option<Seq<char>>) -> spec_fn(SessionRow) -> bool {
    |r: SessionRow| lives_in(r, cwd)
}

pub open spec fn living_outside(cwd: Option<Seq<char>>) -> spec_fn(SessionRow) -> bool {
    |r: SessionRow| !lives_in(r, cwd)
}

pub open spec fn other_than(id: Seq<char>) -> spec_fn(SessionRow) -> bool {
    |r: SessionRow| r.id@ != id
}

pub open spec fn one_of(of: Seq<Seq<char>>) -> spec_fn(SessionRow) -> bool {
    |r: SessionRow| of.contains(r.id@)
}

/// The rows that belong to a directory, in their order.
pub open spec fn rows_here(rows: Seq<SessionRow>, cwd: Option<Seq<char>>) -> Seq<SessionRow> {
    rows.filter(living_in(cwd))
}

/// The other rows, in their order.
pub open spec fn rows_elsewhere(rows: Seq<SessionRow>, cwd: Option<Seq<char>>) -> Seq<SessionRow> {
    rows.filter(living_outside(cwd))
}

/// The ids of rows.
pub open spec fn ids(rows: Seq<SessionRow>) -> Seq<Seq<char>> {
    rows.map_values(|r: SessionRow| r.id@)
}

fn push_section(items: &mut Vec<LaunchItem>, label: &'static str, rows: Vec<SessionRow>)
    ensures
        entries(final(items)@) == entries(old(items)@) + section(label@, rows@),
{
    if rows.len() == 0 {
        assert(entries(items@) + section(label@, rows@) =~= entries(items@));
        return;
    }
    let ghost before = entries(items@);
    let ghost all = rows@;
    let ghost target = section(label@, all);
    items.push(LaunchItem::Header(label));
    assert(entries(items@) =~= before + target.take(1));
    let mut rest: Vec<SessionRow> = rows;
    let ghost mut done: int = 0;
    while rest.len() > 0
        invariant
            0 <= done <= all.len(),
            all.len() > 0,
            target == section(label@, all),
            rest@ == all.skip(done),
            entries(items@) == before + target.take(done + 1),
        decreases rest@.len(),
    {
        let ghost so_far = entries(items@);
        let row: SessionRow = rest.remove(0);
        assert(row == all[done]);
        assert(rest@ =~= all.skip(done + 1));
        items.push(LaunchItem::Resume(row));
        assert(entries(items@) =~= so_far.push(Entry::Row(row)));
        assert(target[done + 1] == Entry::Row(row));
        assert(entries(items@) =~= before + target.take(done + 2));
        proof {
            done = done + 1;
        }
    }
    assert(target.take(done + 1) =~= target);
}

fn build(here: Vec<SessionRow>, elsewhere: Vec<SessionRow>) -> (r: Vec<LaunchItem>)
    ensures
        entries(r@) == listed(here@, elsewhere@),
{
    let mut items: Vec<LaunchItem> = Vec::new();
    items.push(LaunchItem::NewSession);
    assert(entries(items@) =~= seq![Entry::New]);
    push_section(&mut items, HERE_SECTION, here);
    push_section(&mut items, ELSEWHERE_SECTION, elsewhere);
    items
}

fn ids_of(rows: &Vec<SessionRow>) -> (r: Vec<String>)
    ensures
        string_views(r@) == ids(rows@),
{
    let mut out: Vec<String> = Vec::new();
    let mut i: usize = 0;
    assert(string_views(out@) =~= ids(rows@).take(0));
    while i < rows.len()
        invariant
            i <= rows@.len(),
            string_views(out@) == ids(rows@).take(i as int),
        decreases rows@.len() - i,
    {
        let ghost before = string_views(out@);
        out.push(rows[i].id.clone());
        assert(string_views(out@) =~= before.push(rows@[i as int].id@));
        assert(ids(rows@).take(i + 1) =~= before.push(ids(rows@)[i as int]));
        i = i + 1;
    }
    assert(ids(rows@).take(i as int) =~= ids(rows@));
    out
}

/// Whether an entry can hold the cursor.
pub open spec fn is_selectable(items: Seq<LaunchItem>, i: int) -> bool {
    0 <= i < items.len() && !(items[i] is Header)
}

/// The closest entry above one that can hold the cursor.
pub open spec fn above(items: Seq<LaunchItem>, i: int) -> Option<int>
    decreases i,
{
    if i <= 0 {
        None
    } else if is_selectable(items, i - 1) {
        Some(i - 1)
    } else {
        above(items, i - 1)
    }
}

/// The closest entry below one that can hold the cursor.
pub open spec fn below(items: Seq<LaunchItem>, i: int) -> Option<int>
    decreases items.len() - i,
{
    if i + 1 >= items.len() {
        None
    } else if is_selectable(items, i + 1) {
        Some(i + 1)
    } else {
        below(items, i + 1)
    }
}

/// Where the cursor rests if it is put on an entry: there, or on the closest
/// one above that can hold it.
pub open spec fn resting(items: Seq<LaunchItem>, i: int) -> int {
    if is_selectable(items, i) {
        i
    } else {
        match above(items, i) {
            Some(j) => j,
            None => i,
        }
    }
}

/// The first entry of the session with an id.
pub open spec fn row_index(items: Seq<LaunchItem>, id: Seq<char>) -> Option<int>
    decreases items.len(),
{
    if items.len() == 0 {
        None
    } else {
        match row_index(items.drop_last(), id) {
            Some(i) => Some(i),
            None => match items.last() {
                LaunchItem::Resume(row) => if row.id@ == id {
                    Some(items.len() - 1)
                } else {
                    None
                },
                _ => None,
            },
        }
    }
}

/// The sessions among entries, in their order.
pub open spec fn rows_of(items: Seq<LaunchItem>) -> Seq<SessionRow>
    decreases items.len(),
{
    if items.len() == 0 {
        Seq::empty()
    } else {
        let before = rows_of(items.drop_last());
        match items.last() {
            LaunchItem::Resume(row) => before.push(row),
            _ => before,
        }
    }
}

/// A row with the characters of its texts.
pub struct RowTexts {
    pub id: Seq<char>,
    pub kind: Seq<char>,
    pub title: Seq<char>,
    pub updated_at: i64,
    pub working_dir: Option<Seq<char>>,
    pub last: Option<(Seq<char>, bool, Seq<char>)>,
    pub activity: Option<Activity>,
    pub activity_detail: Option<Seq<char>>,
}

pub enum EntryTexts {
    New,
    Header(Seq<char>),
    Row(RowTexts),
}

pub open spec fn last_texts(last: Option<LastMessage>) -> Option<(Seq<char>, bool, Seq<char>)> {
    match last {
        Some(m) => Some((m.role@, m.has_tool_calls, m.preview@)),
        None => None,
    }
}

pub open spec fn row_texts(r: SessionRow) -> RowTexts {
    RowTexts {
        id: r.id@,
        kind: r.kind@,
        title: r.title@,
        updated_at: r.updated_at,
        working_dir: opt_view(r.working_dir),
        last: last_texts(r.last),
        activity: r.activity,
        activity_detail: opt_view(r.activity_detail),
    }
}

pub open spec fn entry_texts(item: LaunchItem) -> EntryTexts {
    match item {
        LaunchItem::NewSession => EntryTexts::New,
        LaunchItem::Header(label) => EntryTexts::Header(label@),
        LaunchItem::Resume(row) => EntryTexts::Row(row_texts(row)),
    }
}

/// What a list shows.
pub open spec fn list_texts(items: Seq<LaunchItem>) -> Seq<EntryTexts> {
    items.map_values(|i: LaunchItem| entry_texts(i))
}

fn same_last(a: &Option<LastMessage>, b: &Option<LastMessage>) -> (r: bool)
    ensures
        r == (last_texts(*a) == last_texts(*b)),
{
    match (a, b) {
        (Some(x), Some(y)) => same(&x.role, &y.role) && x.has_tool_calls == y.has_tool_calls
            && same(&x.preview, &y.preview),
        (None, None) => true,
        _ => false,
    }
}

fn same_row(a: &SessionRow, b: &SessionRow) -> (r: bool)
    ensures
        r == (row_texts(*a) == row_texts(*b)),
{
    same(&a.id, &b.id) && same(&a.kind, &b.kind) && same(&a.title, &b.title) && a.updated_at
        == b.updated_at && same_opt(&a.working_dir, &b.working_dir) && same_last(&a.last, &b.last)
        && same_activity(&a.activity, &b.activity) && same_opt(
        &a.activity_detail,
        &b.activity_detail,
    )
}

fn same_activity(a: &Option<Activity>, b: &Option<Activity>) -> (r: bool)
    ensures
        r == (*a == *b),
{
    match (a, b) {
        (Some(x), Some(y)) => *x == *y,
        (None, None) => true,
        _ => false,
    }
}

fn same_item(a: &LaunchItem, b: &LaunchItem) -> (r: bool)
    ensures
        r == (entry_texts(*a) == entry_texts(*b)),
{
    match (a, b) {
        (LaunchItem::NewSession, LaunchItem::NewSession) => true,
        (LaunchItem::Header(x), LaunchItem::Header(y)) => same(x, y),
        (LaunchItem::Resume(x), LaunchItem::Resume(y)) => same_row(x, y),
        _ => false,
    }
}

fn same_items(a: &Vec<LaunchItem>, b: &Vec<LaunchItem>) -> (r: bool)
    ensures
        r == (list_texts(a@) == list_texts(b@)),
{
    if a.len() != b.len() {
        assert(list_texts(a@).len() != list_texts(b@).len());
        return false;
    }
    let mut i: usize = 0;
    while i < a.len()
        invariant
            i <= a@.len() == b@.len(),
            forall|k: int|
                0 <= k < i ==> #[trigger] entry_texts(a@[k]) == entry_texts(b@[k]),
        decreases a@.len() - i,
    {
        if !same_item(&a[i], &b[i]) {
            assert(list_texts(a@)[i as int] != list_texts(b@)[i as int]);
            return false;
        }
        i = i + 1;
    }
    assert forall|k: int| 0 <= k < a@.len() implies #[trigger] list_texts(a@)[k] == list_texts(
        b@,
    )[k] by {
        assert(entry_texts(a@[k]) == entry_texts(b@[k]));
    }
    assert(list_texts(a@) =~= list_texts(b@));
    true
}

impl Default for Picker {
    /// An empty list.
    fn default() -> (r: Self)
        ensures
            r.items@.len() == 0,
            r.selected == 0,
            r.confirming_delete is None,
            r.renaming is None,
            r.confirming_repoint is None,
            r.here@.len() == 0,
            r.elsewhere@.len() == 0,
            r.notice is None,
    {
        Picker {
            items: Vec::new(),
            selected: 0,
            confirming_delete: None,
            renaming: None,
            confirming_repoint: None,
            here: Vec::new(),
            elsewhere: Vec::new(),
            notice: None,
        }
    }
}

impl Picker {
    /// The cursor is on an entry that can hold it.
    pub open spec fn wf(self) -> bool {
        is_selectable(self.items@, self.selected as int)
    }

    /// The list of sessions, grouped by whether each belongs to `cwd`.
    pub fn launch(all: Vec<SessionRow>, cwd: Option<&str>) -> (r: Self)
        ensures
            r.wf(),
            r.items@[0] is NewSession,
            entries(r.items@) == listed(
                rows_here(all@, str_view(cwd)),
                rows_elsewhere(all@, str_view(cwd)),
            ),
            r.selected == 0,
            r.confirming_delete is None,
            r.renaming is None,
            r.confirming_repoint is None,
            r.notice is None,
            string_views(r.here@) == ids(rows_here(all@, str_view(cwd))),
            string_views(r.elsewhere@) == ids(rows_elsewhere(all@, str_view(cwd))),
    {
        let mut rest: Vec<SessionRow> = all;
        let ghost rows = rest@;
        let ghost dir = str_view(cwd);
        let ghost mut done: int = 0;
        let mut here: Vec<SessionRow> = Vec::new();
        let mut elsewhere: Vec<SessionRow> = Vec::new();
        reveal(Seq::filter);
        assert(here@ =~= rows_here(rows.take(0), dir));
        assert(elsewhere@ =~= rows_elsewhere(rows.take(0), dir));
        while rest.len() > 0
            invariant
                0 <= done <= rows.len(),
                dir == str_view(cwd),
                rest@ == rows.skip(done),
                here@ == rows_here(rows.take(done), dir),
                elsewhere@ == rows_elsewhere(rows.take(done), dir),
            decreases rest@.len(),
        {
            reveal(Seq::filter);
            let row: SessionRow = rest.remove(0);
            assert(row == rows[done]);
            assert(rest@ =~= rows.skip(done + 1));
            assert(rows.take(done + 1).drop_last() =~= rows.take(done));
            assert(rows.take(done + 1).last() == row);
            let belongs: bool = match (cwd, &row.working_dir) {
                (Some(dir), Some(recorded)) => same(recorded, dir),
                _ => false,
            };
            assert(belongs == lives_in(row, dir));
            if belongs {
                here.push(row);
            } else {
                elsewhere.push(row);
            }
            proof {
                done = done + 1;
            }
        }
        assert(rows.take(done) =~= rows);
        let here_ids: Vec<String> = ids_of(&here);
        let elsewhere_ids: Vec<String> = ids_of(&elsewhere);
        let items: Vec<LaunchItem> = build(here, elsewhere);
        proof {
            assert(entries(items@).len() == items@.len());
            assert(entries(items@)[0] == Entry::New);
            assert(entry_of(items@[0]) == Entry::New);
        }
        Picker {
            items,
            selected: 0,
            confirming_delete: None,
            renaming: None,
            confirming_repoint: None,
            here: here_ids,
            elsewhere: elsewhere_ids,
            notice: None,
        }
    }

    fn selectable(&self, index: usize) -> (r: bool)
        ensures
            r == is_selectable(self.items@, index as int),
    {
        if index >= self.items.len() {
            return false;
        }
        match &self.items[index] {
            LaunchItem::Header(_) => false,
            _ => true,
        }
    }

    /// Moves the cursor up, over labels; at the top it stays.
    pub fn move_up(&mut self)
        ensures
            final(self).selected == match above(old(self).items@, old(self).selected as int) {
                Some(j) => j,
                None => old(self).selected as int,
            },
            *final(self) == (Picker { selected: final(self).selected, ..*old(self) }),
    {
        let mut index: usize = self.selected;
        while index > 0
            invariant
                *self == *old(self),
                index <= self.selected,
                above(self.items@, self.selected as int) == above(self.items@, index as int),
            decreases index,
        {
            index = index - 1;
            if self.selectable(index) {
                self.selected = index;
                return;
            }
        }
    }

    /// Moves the cursor down, over labels; at the bottom it stays.
    pub fn move_down(&mut self)
        ensures
            final(self).selected == match below(old(self).items@, old(self).selected as int) {
                Some(j) => j,
                None => old(self).selected as int,
            },
            *final(self) == (Picker { selected: final(self).selected, ..*old(self) }),
    {
        let mut index: usize = self.selected;
        let count: usize = self.items.len();
        while index < count && index + 1 < count
            invariant
                *self == *old(self),
                count == self.items@.len(),
                below(self.items@, self.selected as int) == below(self.items@, index as int),
            decreases count - index,
        {
            index = index + 1;
            if self.selectable(index) {
                self.selected = index;
                return;
            }
        }
    }

    fn rest_at(&mut self, index: usize)
        ensures
            final(self).selected == resting(old(self).items@, index as int),
            *final(self) == (Picker { selected: final(self).selected, ..*old(self) }),
    {
        self.selected = index;
        if !self.selectable(index) {
            self.move_up();
        }
    }

    /// The session under the cursor.
    pub open spec fn current(self) -> Option<SessionRow> {
        if self.selected < self.items@.len() {
            match self.items@[self.selected as int] {
                LaunchItem::Resume(row) => Some(row),
                _ => None,
            }
        } else {
            None
        }
    }

    /// The session under the cursor.
    pub fn selected_session(&self) -> (r: Option<&SessionRow>)
        ensures
            match r {
                Some(row) => self.current() == Some(*row),
                None => self.current() is None,
            },
    {
        if self.selected >= self.items.len() {
            return None;
        }
        match &self.items[self.selected] {
            LaunchItem::Resume(row) => Some(row),
            _ => None,
        }
    }

    fn position_of(&self, id: &str) -> (r: Option<usize>)
        ensures
            match r {
                Some(i) => row_index(self.items@, id@) == Some(i as int) && i < self.items@.len(),
                None => row_index(self.items@, id@) is None,
            },
    {
        let mut i: usize = 0;
        assert(self.items@.take(0) =~= Seq::empty());
        while i < self.items.len()
            invariant
                i <= self.items@.len(),
                row_index(self.items@.take(i as int), id@) is None,
            decreases self.items@.len() - i,
        {
            let ghost head = self.items@.take(i + 1);
            assert(head.drop_last() =~= self.items@.take(i as int));
            let hit: bool = match &self.items[i] {
                LaunchItem::Resume(row) => same(&row.id, id),
                _ => false,
            };
            if hit {
                proof {
                    lemma_row_index_of_prefix(self.items@, id@, i + 1);
                }
                return Some(i);
            }
            i = i + 1;
        }
        assert(self.items@.take(i as int) =~= self.items@);
        None
    }

    /// Where the cursor goes when the list is replaced: with the session it was
    /// on, or about where it was if that is gone.
    pub open spec fn follows(self, items: Seq<LaunchItem>) -> int {
        let near = if self.selected < items.len() {
            self.selected as int
        } else {
            items.len() - 1
        };
        let target = match self.current() {
            Some(row) => match row_index(items, row.id@) {
                Some(i) => i,
                None => near,
            },
            None => near,
        };
        resting(items, target)
    }

    /// Takes in the sessions as they are now, and says whether the list shows
    /// anything else than before. The cursor follows its session.
    pub fn refresh(&mut self, latest: Vec<SessionRow>, cwd: Option<&str>) -> (r: bool)
        ensures
            !r ==> *final(self) == *old(self),
            r ==> {
                &&& entries(final(self).items@) == listed(
                    rows_here(latest@, str_view(cwd)),
                    rows_elsewhere(latest@, str_view(cwd)),
                )
                &&& final(self).selected == old(self).follows(final(self).items@)
                &&& final(self).wf()
                &&& string_views(final(self).here@) == ids(rows_here(latest@, str_view(cwd)))
                &&& string_views(final(self).elsewhere@) == ids(
                    rows_elsewhere(latest@, str_view(cwd)),
                )
                &&& *final(self) == (Picker {
                    items: final(self).items,
                    selected: final(self).selected,
                    here: final(self).here,
                    elsewhere: final(self).elsewhere,
                    ..*old(self)
                })
            },
            r <==> list_texts(old(self).items@) != texts_of(
                listed(
                    rows_here(latest@, str_view(cwd)),
                    rows_elsewhere(latest@, str_view(cwd)),
                ),
            ),
    {
        let rebuilt: Picker = Picker::launch(latest, cwd);
        proof {
            lemma_texts_of(rebuilt.items@);
        }
        if same_items(&rebuilt.items, &self.items) {
            return false;
        }
        let chosen: Option<String> = match self.selected_session() {
            Some(row) => Some(row.id.clone()),
            None => None,
        };
        let previous: usize = self.selected;
        self.items = rebuilt.items;
        self.here = rebuilt.here;
        self.elsewhere = rebuilt.elsewhere;
        assert(is_selectable(self.items@, 0));
        let near: usize = if previous < self.items.len() {
            previous
        } else {
            self.items.len() - 1
        };
        let target: usize = match chosen {
            Some(id) => match self.position_of(&id) {
                Some(i) => i,
                None => near,
            },
            None => near,
        };
        self.rest_at(target);
        proof {
            lemma_resting_is_selectable(self.items@, target as int);
        }
        true
    }

    /// Whether any session is working, so that there is something to animate.
    pub fn has_working_session(&self) -> (r: bool)
        ensures
            r == exists|i: int|
                0 <= i < self.items@.len() && is_working(#[trigger] self.items@[i]),
    {
        let mut i: usize = 0;
        while i < self.items.len()
            invariant
                i <= self.items@.len(),
                forall|k: int| 0 <= k < i ==> !is_working(#[trigger] self.items@[k]),
            decreases self.items@.len() - i,
        {
            let working: bool = match &self.items[i] {
                LaunchItem::Resume(row) => row.last_state() == LastState::Working,
                _ => false,
            };
            if working {
                assert(is_working(self.items@[i as int]));
                return true;
            }
            i = i + 1;
        }
        false
    }

    /// What choosing the entry under the cursor means.
    pub fn activate(&self) -> (r: Option<Activation>)
        ensures
            r == if self.selected < self.items@.len() {
                match self.items@[self.selected as int] {
                    LaunchItem::NewSession => Some(Activation::NewSession),
                    LaunchItem::Resume(row) => Some(Activation::Resume(row)),
                    LaunchItem::Header(_) => None,
                }
            } else {
                None
            },
    {
        if self.selected >= self.items.len() {
            return None;
        }
        match &self.items[self.selected] {
            LaunchItem::NewSession => Some(Activation::NewSession),
            LaunchItem::Resume(row) => Some(Activation::Resume(row.copied())),
            LaunchItem::Header(_) => None,
        }
    }

    /// Asks whether the session under the cursor is to be deleted.
    pub fn begin_delete(&mut self)
        ensures
            *final(self) == if old(self).current() is Some {
                Picker { confirming_delete: old(self).current(), ..*old(self) }
            } else {
                *old(self)
            },
    {
        let row: Option<SessionRow> = match self.selected_session() {
            Some(row) => Some(row.copied()),
            None => None,
        };
        if row.is_some() {
            self.confirming_delete = row;
        }
    }

    /// Asks whether a session is to be resumed here, its own directory being
    /// gone.
    pub fn begin_repoint(&mut self, row: SessionRow, missing: String)
        ensures
            *final(self) == (Picker { confirming_repoint: Some((row, missing)), ..*old(self) }),
    {
        self.confirming_repoint = Some((row, missing));
    }

    /// Takes in the answer to that.
    pub fn resolve_repoint(&mut self, confirmed: bool) -> (r: Option<Activation>)
        ensures
            *final(self) == (Picker { confirming_repoint: None, ..*old(self) }),
            r == match old(self).confirming_repoint {
                Some((row, _)) => if confirmed {
                    Some(Activation::Repoint(row))
                } else {
                    None
                },
                None => None,
            },
    {
        match self.confirming_repoint.take() {
            Some((row, _)) => if confirmed {
                Some(Activation::Repoint(row))
            } else {
                None
            },
            None => None,
        }
    }

    /// Takes in the answer to whether a session is to be deleted.
    pub fn resolve_delete(&mut self, confirmed: bool) -> (r: Option<Activation>)
        ensures
            *final(self) == (Picker { confirming_delete: None, ..*old(self) }),
            r == match old(self).confirming_delete {
                Some(row) => if confirmed {
                    Some(Activation::Delete(row))
                } else {
                    None
                },
                None => None,
            },
    {
        match self.confirming_delete.take() {
            Some(row) => if confirmed {
                Some(Activation::Delete(row))
            } else {
                None
            },
            None => None,
        }
    }

    /// Drops a session from the list, and its section's label with the last
    /// of it. The cursor stays where it was as far as it can.
    pub fn remove_session(&mut self, id: &str)
        ensures
            entries(final(self).items@) == listed(
                members(without_id(rows_of(old(self).items@), id@), string_views(old(self).here@)),
                members(
                    without_id(rows_of(old(self).items@), id@),
                    string_views(old(self).elsewhere@),
                ),
            ),
            final(self).selected == resting(
                final(self).items@,
                if old(self).selected < final(self).items@.len() {
                    old(self).selected as int
                } else {
                    final(self).items@.len() - 1
                },
            ),
            final(self).wf(),
            *final(self) == (Picker {
                items: final(self).items,
                selected: final(self).selected,
                ..*old(self)
            }),
    {
        reveal(Seq::filter);
        let ghost all = rows_of(self.items@);
        let mut here: Vec<SessionRow> = Vec::new();
        let mut elsewhere: Vec<SessionRow> = Vec::new();
        let mut i: usize = 0;
        assert(rows_of(self.items@.take(0)) =~= Seq::<SessionRow>::empty());
        assert(here@ =~= members(
            without_id(rows_of(self.items@.take(0)), id@),
            string_views(self.here@),
        ));
        assert(elsewhere@ =~= members(
            without_id(rows_of(self.items@.take(0)), id@),
            string_views(self.elsewhere@),
        ));
        while i < self.items.len()
            invariant
                *self == *old(self),
                i <= self.items@.len(),
                here@ == members(
                    without_id(rows_of(self.items@.take(i as int)), id@),
                    string_views(self.here@),
                ),
                elsewhere@ == members(
                    without_id(rows_of(self.items@.take(i as int)), id@),
                    string_views(self.elsewhere@),
                ),
            decreases self.items@.len() - i,
        {
            reveal(Seq::filter);
            let ghost before = rows_of(self.items@.take(i as int));
            assert(self.items@.take(i + 1).drop_last() =~= self.items@.take(i as int));
            match &self.items[i] {
                LaunchItem::Resume(row) => {
                    let ghost now = before.push(*row);
                    assert(now.drop_last() =~= before);
                    assert(without_id(now, id@) == if row.id@ != id@ {
                        without_id(before, id@).push(*row)
                    } else {
                        without_id(before, id@)
                    });
                    if !same(&row.id, id) {
                        assert(without_id(now, id@).drop_last() =~= without_id(before, id@));
                        if contains_id(&self.here, &row.id) {
                            here.push(row.copied());
                        }
                        if contains_id(&self.elsewhere, &row.id) {
                            elsewhere.push(row.copied());
                        }
                    }
                },
                _ => {},
            }
            i = i + 1;
        }
        assert(self.items@.take(i as int) =~= self.items@);
        self.items = build(here, elsewhere);
        proof {
            assert(entries(self.items@).len() == self.items@.len());
            assert(entries(self.items@)[0] == Entry::New);
            assert(entry_of(self.items@[0]) == Entry::New);
        }
        let target: usize = if self.selected < self.items.len() {
            self.selected
        } else {
            self.items.len() - 1
        };
        self.rest_at(target);
        proof {
            lemma_resting_is_selectable(self.items@, target as int);
        }
    }

    /// Starts renaming the session under the cursor, from its present title.
    pub fn begin_rename(&mut self)
        ensures
            *final(self) == match old(self).current() {
                Some(row) => Picker { renaming: Some((row, row.title)), ..*old(self) },
                None => *old(self),
            },
    {
        let row: Option<SessionRow> = match self.selected_session() {
            Some(row) => Some(row.copied()),
            None => None,
        };
        match row {
            Some(row) => {
                let title: String = row.title.clone();
                self.renaming = Some((row, title));
            },
            None => {},
        }
    }

    /// Types a character of the new title.
    pub fn rename_insert_char(&mut self, c: char)
        ensures
            *final(self) == (Picker { renaming: final(self).renaming, ..*old(self) }),
            match old(self).renaming {
                Some((row, title)) => {
                    &&& final(self).renaming matches Some((r, t))
                    &&& r == row
                    &&& t@ == title@.push(c)
                },
                None => final(self).renaming is None,
            },
    {
        match self.renaming.take() {
            Some((row, title)) => {
                let mut title: String = title;
                title.push(c);
                self.renaming = Some((row, title));
            },
            None => {},
        }
    }

    /// Deletes the last character of the new title.
    pub fn rename_backspace(&mut self)
        ensures
            *final(self) == (Picker { renaming: final(self).renaming, ..*old(self) }),
            match old(self).renaming {
                Some((row, title)) => {
                    &&& final(self).renaming matches Some((r, t))
                    &&& r == row
                    &&& t@ == if title@.len() > 0 {
                        title@.drop_last()
                    } else {
                        title@
                    }
                },
                None => final(self).renaming is None,
            },
    {
        match self.renaming.take() {
            Some((row, title)) => {
                let mut title: String = title;
                let _ = title.pop();
                self.renaming = Some((row, title));
            },
            None => {},
        }
    }

    /// Gives the renaming up.
    pub fn cancel_rename(&mut self)
        ensures
            *final(self) == (Picker { renaming: None, ..*old(self) }),
    {
        self.renaming = None;
    }

    /// Ends the renaming, and says which session gets which title. A blank
    /// title is refused and the renaming goes on.
    pub fn confirm_rename(&mut self) -> (r: Option<(String, String)>)
        ensures
            match old(self).renaming {
                Some((row, title)) => if trim(title@).len() > 0 {
                    &&& r matches Some((id, t))
                    &&& id == row.id
                    &&& t@ == trim(title@)
                    &&& *final(self) == (Picker { renaming: None, ..*old(self) })
                } else {
                    r is None && *final(self) == *old(self)
                },
                None => r is None && *final(self) == *old(self),
            },
    {
        let result: Option<(String, String)> = match &self.renaming {
            Some((row, title)) => {
                let chars: Vec<char> = chars_of(title);
                let trimmed: &[char] = trim_chars(&chars);
                if trimmed.len() == 0 {
                    None
                } else {
                    Some((row.id.clone(), string_of(trimmed)))
                }
            },
            None => None,
        };
        if result.is_some() {
            self.renaming = None;
        }
        result
    }

    /// Shows a new title on the first row of the session.
    pub fn apply_rename(&mut self, id: &str, title: String)
        ensures
            *final(self) == (Picker { items: final(self).items, ..*old(self) }),
            final(self).items@ == match row_index(old(self).items@, id@) {
                Some(i) => old(self).items@.update(
                    i,
                    LaunchItem::Resume(
                        SessionRow { title, ..old(self).items@[i]->Resume_0 },
                    ),
                ),
                None => old(self).items@,
            },
    {
        proof {
            lemma_row_index_is_a_row(self.items@, id@);
        }
        match self.position_of(id) {
            Some(i) => {
                let item: LaunchItem = self.items.remove(i);
                match item {
                    LaunchItem::Resume(row) => {
                        let mut row: SessionRow = row;
                        row.title = title;
                        self.items.insert(i, LaunchItem::Resume(row));
                    },
                    other => {
                        self.items.insert(i, other);
                    },
                }
                assert(self.items@ =~= old(self).items@.update(
                    i as int,
                    LaunchItem::Resume(
                        SessionRow { title, ..old(self).items@[i as int]->Resume_0 },
                    ),
                ));
            },
            None => {},
        }
    }
}

/// Whether an entry is a session that is working.
pub open spec fn is_working(item: LaunchItem) -> bool {
    item matches LaunchItem::Resume(row) && state_of(row.activity, row.last) == LastState::Working
}

/// What a list of entries shows.
pub open spec fn texts_of(list: Seq<Entry>) -> Seq<EntryTexts> {
    list.map_values(
        |e: Entry|
            match e {
                Entry::New => EntryTexts::New,
                Entry::Header(label) => EntryTexts::Header(label),
                Entry::Row(row) => EntryTexts::Row(row_texts(row)),
            },
    )
}

proof fn lemma_texts_of(items: Seq<LaunchItem>)
    ensures
        list_texts(items) == texts_of(entries(items)),
{
    assert(list_texts(items) =~= texts_of(entries(items)));
}

/// The rows without those of an id.
pub open spec fn without_id(rows: Seq<SessionRow>, id: Seq<char>) -> Seq<SessionRow> {
    rows.filter(other_than(id))
}

/// The rows whose ids are among the given ones.
pub open spec fn members(rows: Seq<SessionRow>, of: Seq<Seq<char>>) -> Seq<SessionRow> {
    rows.filter(one_of(of))
}

fn contains_id(of: &Vec<String>, id: &str) -> (r: bool)
    ensures
        r == string_views(of@).contains(id@),
{
    let mut i: usize = 0;
    while i < of.len()
        invariant
            i <= of@.len(),
            forall|k: int| 0 <= k < i ==> #[trigger] string_views(of@)[k] != id@,
        decreases of@.len() - i,
    {
        assert(string_views(of@)[i as int] == of@[i as int]@);
        if same(&of[i], id) {
            return true;
        }
        i = i + 1;
    }
    false
}

proof fn lemma_row_index_of_prefix(items: Seq<LaunchItem>, id: Seq<char>, n: int)
    requires
        0 <= n <= items.len(),
        row_index(items.take(n), id) is Some,
    ensures
        row_index(items, id) == row_index(items.take(n), id),
    decreases items.len() - n,
{
    if n == items.len() {
        assert(items.take(n) =~= items);
    } else {
        assert(items.take(n + 1).drop_last() =~= items.take(n));
        lemma_row_index_of_prefix(items, id, n + 1);
    }
}

proof fn lemma_row_index_is_a_row(items: Seq<LaunchItem>, id: Seq<char>)
    ensures
        row_index(items, id) matches Some(i) ==> 0 <= i < items.len() && items[i] is Resume,
    decreases items.len(),
{
    if items.len() > 0 {
        lemma_row_index_is_a_row(items.drop_last(), id);
    }
}

proof fn lemma_above(items: Seq<LaunchItem>, i: int)
    requires
        is_selectable(items, 0),
        i > 0,
    ensures
        above(items, i) matches Some(j) && 0 <= j < i && is_selectable(items, j),
    decreases i,
{
    if !is_selectable(items, i - 1) {
        lemma_above(items, i - 1);
    }
}

proof fn lemma_resting_is_selectable(items: Seq<LaunchItem>, i: int)
    requires
        is_selectable(items, 0),
        0 <= i < items.len(),
    ensures
        is_selectable(items, resting(items, i)),
{
    if i > 0 {
        lemma_above(items, i);
    }
}

/// The cursor never rests on a label: moving it up or down leads from an entry
/// that can hold it to another, or nowhere.
pub proof fn the_cursor_never_rests_on_a_label(items: Seq<LaunchItem>, i: int)
    requires
        is_selectable(items, i),
    ensures
        above(items, i) matches Some(j) ==> j < i && is_selectable(items, j),
        below(items, i) matches Some(j) ==> i < j && is_selectable(items, j),
{
    lemma_above_is_selectable(items, i);
    lemma_below_is_selectable(items, i);
}

proof fn lemma_above_is_selectable(items: Seq<LaunchItem>, i: int)
    ensures
        above(items, i) matches Some(j) ==> j < i && is_selectable(items, j),
    decreases i,
{
    if i > 0 && !is_selectable(items, i - 1) {
        lemma_above_is_selectable(items, i - 1);
    }
}

proof fn lemma_below_is_selectable(items: Seq<LaunchItem>, i: int)
    ensures
        below(items, i) matches Some(j) ==> i < j && is_selectable(items, j),
    decreases items.len() - i,
{
    if i + 1 < items.len() && !is_selectable(items, i + 1) {
        lemma_below_is_selectable(items, i + 1);
    }
}

/// Moving the cursor down and up again brings it back, wherever there is
/// something below.
pub proof fn up_undoes_down(items: Seq<LaunchItem>, i: int)
    requires
        is_selectable(items, i),
        below(items, i) is Some,
    ensures
        above(items, below(items, i)->0) == Some(i),
{
    lemma_between(items, i, i);
}

proof fn lemma_between(items: Seq<LaunchItem>, i: int, k: int)
    requires
        is_selectable(items, i),
        i <= k < items.len(),
        below(items, k) is Some,
        forall|m: int| i < m <= k ==> !is_selectable(items, m),
    ensures
        above(items, below(items, k)->0) == Some(i),
    decreases items.len() - k,
{
    if is_selectable(items, k + 1) {
        lemma_up_to(items, i, k + 1);
    } else {
        lemma_between(items, i, k + 1);
    }
}

proof fn lemma_up_to(items: Seq<LaunchItem>, i: int, k: int)
    requires
        is_selectable(items, i),
        i < k,
        forall|m: int| i < m < k ==> !is_selectable(items, m),
    ensures
        above(items, k) == Some(i),
    decreases k - i,
{
    if k - 1 > i {
        lemma_up_to(items, i, k - 1);
    }
}

/// Whether no two rows have the same id.
pub open spec fn ids_differ(rows: Seq<SessionRow>) -> bool {
    forall|i: int, j: int|
        0 <= i < j < rows.len() ==> (#[trigger] rows[i]).id@ != (#[trigger] rows[j]).id@
}

proof fn lemma_filters_commute(
    rows: Seq<SessionRow>,
    p: spec_fn(SessionRow) -> bool,
    q: spec_fn(SessionRow) -> bool,
)
    ensures
        rows.filter(p).filter(q) == rows.filter(q).filter(p),
    decreases rows.len(),
{
    reveal(Seq::filter);
    if rows.len() > 0 {
        let rest = rows.drop_last();
        let last = rows.last();
        lemma_filters_commute(rest, p, q);
        assert(rest.filter(p).push(last).drop_last() =~= rest.filter(p));
        assert(rest.filter(q).push(last).drop_last() =~= rest.filter(q));
    }
}

proof fn lemma_filter_all(rows: Seq<SessionRow>, p: spec_fn(SessionRow) -> bool)
    requires
        forall|i: int| 0 <= i < rows.len() ==> p(#[trigger] rows[i]),
    ensures
        rows.filter(p) == rows,
    decreases rows.len(),
{
    reveal(Seq::filter);
    if rows.len() > 0 {
        assert forall|i: int| 0 <= i < rows.drop_last().len() implies p(
            #[trigger] rows.drop_last()[i],
        ) by {
            assert(p(rows[i]));
        }
        lemma_filter_all(rows.drop_last(), p);
        assert(p(rows[rows.len() - 1]));
        assert(rows.drop_last().push(rows.last()) =~= rows);
    }
}

proof fn lemma_filter_none(rows: Seq<SessionRow>, p: spec_fn(SessionRow) -> bool)
    requires
        forall|i: int| 0 <= i < rows.len() ==> !p(#[trigger] rows[i]),
    ensures
        rows.filter(p) == Seq::<SessionRow>::empty(),
    decreases rows.len(),
{
    reveal(Seq::filter);
    if rows.len() > 0 {
        assert forall|i: int| 0 <= i < rows.drop_last().len() implies !p(
            #[trigger] rows.drop_last()[i],
        ) by {
            assert(!p(rows[i]));
        }
        lemma_filter_none(rows.drop_last(), p);
        assert(!p(rows[rows.len() - 1]));
    } else {
        assert(rows.filter(p) =~= Seq::<SessionRow>::empty());
    }
}

proof fn lemma_filter_is_part(rows: Seq<SessionRow>, p: spec_fn(SessionRow) -> bool, i: int)
    requires
        0 <= i < rows.filter(p).len(),
    ensures
        p(rows.filter(p)[i]),
        exists|k: int| 0 <= k < rows.len() && #[trigger] rows[k] == rows.filter(p)[i],
    decreases rows.len(),
{
    reveal(Seq::filter);
    let rest = rows.drop_last();
    if i < rest.filter(p).len() {
        lemma_filter_is_part(rest, p, i);
        let k = choose|k: int| 0 <= k < rest.len() && #[trigger] rest[k] == rest.filter(p)[i];
        assert(rows[k] == rows.filter(p)[i]);
    } else {
        assert(rows[rows.len() - 1] == rows.filter(p)[i]);
    }
}

proof fn lemma_rows_of_entries(
    items: Seq<LaunchItem>,
    here: Seq<SessionRow>,
    elsewhere: Seq<SessionRow>,
)
    requires
        entries(items) == listed(here, elsewhere),
    ensures
        rows_of(items) == here + elsewhere,
{
    lemma_rows_of_by_entries(items);
    let head: Seq<Entry> = seq![Entry::New];
    lemma_entry_rows_of_sum(head, section(HERE_SECTION@, here));
    lemma_entry_rows_of_sum(
        head + section(HERE_SECTION@, here),
        section(ELSEWHERE_SECTION@, elsewhere),
    );
    lemma_entry_rows_of_section(HERE_SECTION@, here);
    lemma_entry_rows_of_section(ELSEWHERE_SECTION@, elsewhere);
    assert(head.drop_last() =~= Seq::empty());
    assert(entry_rows(head.drop_last()) =~= Seq::<SessionRow>::empty());
    assert(entry_rows(head) =~= Seq::<SessionRow>::empty());
    assert(rows_of(items) =~= here + elsewhere);
}

/// The sessions among entries.
spec fn entry_rows(list: Seq<Entry>) -> Seq<SessionRow>
    decreases list.len(),
{
    if list.len() == 0 {
        Seq::empty()
    } else {
        let before = entry_rows(list.drop_last());
        match list.last() {
            Entry::Row(row) => before.push(row),
            _ => before,
        }
    }
}

proof fn lemma_rows_of_by_entries(items: Seq<LaunchItem>)
    ensures
        rows_of(items) == entry_rows(entries(items)),
    decreases items.len(),
{
    if items.len() > 0 {
        lemma_rows_of_by_entries(items.drop_last());
        assert(entries(items).drop_last() =~= entries(items.drop_last()));
        assert(entries(items).last() == entry_of(items.last()));
    }
}

proof fn lemma_entry_rows_of_sum(a: Seq<Entry>, b: Seq<Entry>)
    ensures
        entry_rows(a + b) == entry_rows(a) + entry_rows(b),
    decreases b.len(),
{
    if b.len() == 0 {
        assert(a + b =~= a);
        assert(entry_rows(a) + entry_rows(b) =~= entry_rows(a));
    } else {
        lemma_entry_rows_of_sum(a, b.drop_last());
        assert((a + b).drop_last() =~= a + b.drop_last());
        assert(entry_rows(a + b) =~= entry_rows(a) + entry_rows(b));
    }
}

proof fn lemma_entry_rows_of_section(label: Seq<char>, rows: Seq<SessionRow>)
    ensures
        entry_rows(section(label, rows)) == rows,
{
    if rows.len() == 0 {
        assert(entry_rows(section(label, rows)) =~= rows);
    } else {
        let head: Seq<Entry> = seq![Entry::Header(label)];
        let tail = rows.map_values(|r: SessionRow| Entry::Row(r));
        lemma_entry_rows_of_sum(head, tail);
        lemma_entry_rows_of_rows(rows);
        assert(head.drop_last() =~= Seq::empty());
        assert(entry_rows(head.drop_last()) =~= Seq::<SessionRow>::empty());
        assert(entry_rows(head) =~= Seq::<SessionRow>::empty());
        assert(entry_rows(section(label, rows)) =~= rows);
    }
}

proof fn lemma_entry_rows_of_rows(rows: Seq<SessionRow>)
    ensures
        entry_rows(rows.map_values(|r: SessionRow| Entry::Row(r))) == rows,
    decreases rows.len(),
{
    let list = rows.map_values(|r: SessionRow| Entry::Row(r));
    if rows.len() > 0 {
        lemma_entry_rows_of_rows(rows.drop_last());
        assert(list.drop_last() =~= rows.drop_last().map_values(|r: SessionRow| Entry::Row(r)));
        assert(rows.drop_last().push(rows.last()) =~= rows);
    } else {
        assert(entry_rows(list) =~= rows);
    }
}

/// Removing a session from a list that was made for some rows leaves the list
/// that would have been made for the others. No two sessions share an id.
pub proof fn removing_regroups_as_launching_would(
    items: Seq<LaunchItem>,
    rows: Seq<SessionRow>,
    cwd: Option<Seq<char>>,
    id: Seq<char>,
)
    requires
        ids_differ(rows),
        entries(items) == listed(rows_here(rows, cwd), rows_elsewhere(rows, cwd)),
    ensures
        listed(
            members(without_id(rows_of(items), id), ids(rows_here(rows, cwd))),
            members(without_id(rows_of(items), id), ids(rows_elsewhere(rows, cwd))),
        ) == listed(rows_here(without_id(rows, id), cwd), rows_elsewhere(without_id(rows, id), cwd)),
{
    let here = rows_here(rows, cwd);
    let elsewhere = rows_elsewhere(rows, cwd);
    let other = other_than(id);
    let lives = living_in(cwd);
    let not_lives = living_outside(cwd);
    lemma_rows_of_entries(items, here, elsewhere);
    Seq::filter_distributes_over_add(here, elsewhere, other);
    lemma_filters_commute(rows, lives, other);
    lemma_filters_commute(rows, not_lives, other);
    lemma_one_section(rows, cwd, id, true);
    lemma_one_section(rows, cwd, id, false);
}

proof fn lemma_one_section(
    rows: Seq<SessionRow>,
    cwd: Option<Seq<char>>,
    id: Seq<char>,
    in_here: bool,
)
    requires
        ids_differ(rows),
    ensures
        ({
            let here = rows_here(rows, cwd);
            let elsewhere = rows_elsewhere(rows, cwd);
            let left = without_id(here, id) + without_id(elsewhere, id);
            if in_here {
                members(left, ids(here)) == without_id(here, id)
            } else {
                members(left, ids(elsewhere)) == without_id(elsewhere, id)
            }
        }),
{
    let here = rows_here(rows, cwd);
    let elsewhere = rows_elsewhere(rows, cwd);
    let of = if in_here {
        ids(here)
    } else {
        ids(elsewhere)
    };
    let a = without_id(here, id);
    let b = without_id(elsewhere, id);
    let p = one_of(of);
    Seq::filter_distributes_over_add(a, b, p);
    assert forall|i: int| 0 <= i < a.len() implies p(#[trigger] a[i]) == in_here by {
        lemma_membership(rows, cwd, id, true, i);
    }
    assert forall|i: int| 0 <= i < b.len() implies p(#[trigger] b[i]) == !in_here by {
        lemma_membership(rows, cwd, id, false, i);
    }
    if in_here {
        lemma_filter_all(a, p);
        lemma_filter_none(b, p);
        assert(a + Seq::<SessionRow>::empty() =~= a);
    } else {
        lemma_filter_none(a, p);
        lemma_filter_all(b, p);
        assert(Seq::<SessionRow>::empty() + b =~= b);
    }
}

/// A row that is left of one section is a member of that section alone.
proof fn lemma_membership(
    rows: Seq<SessionRow>,
    cwd: Option<Seq<char>>,
    id: Seq<char>,
    in_here: bool,
    i: int,
)
    requires
        ids_differ(rows),
        0 <= i < (if in_here {
            without_id(rows_here(rows, cwd), id)
        } else {
            without_id(rows_elsewhere(rows, cwd), id)
        }).len(),
    ensures
        ({
            let row = if in_here {
                without_id(rows_here(rows, cwd), id)[i]
            } else {
                without_id(rows_elsewhere(rows, cwd), id)[i]
            };
            &&& ids(rows_here(rows, cwd)).contains(row.id@) == in_here
            &&& ids(rows_elsewhere(rows, cwd)).contains(row.id@) == !in_here
        }),
{
    let here = rows_here(rows, cwd);
    let elsewhere = rows_elsewhere(rows, cwd);
    let lives = living_in(cwd);
    let not_lives = living_outside(cwd);
    let other = other_than(id);
    let mine = if in_here {
        here
    } else {
        elsewhere
    };
    let row = without_id(mine, id)[i];
    lemma_filter_is_part(mine, other, i);
    let k = choose|k: int| 0 <= k < mine.len() && #[trigger] mine[k] == row;
    assert(ids(mine)[k] == row.id@);
    assert(ids(mine).contains(row.id@));
    if in_here {
        lemma_filter_is_part(rows, lives, k);
    } else {
        lemma_filter_is_part(rows, not_lives, k);
    }
    let n = choose|n: int| 0 <= n < rows.len() && #[trigger] rows[n] == row;
    let theirs = if in_here {
        elsewhere
    } else {
        here
    };
    if ids(theirs).contains(row.id@) {
        let m = choose|m: int| 0 <= m < ids(theirs).len() && ids(theirs)[m] == row.id@;
        assert(theirs[m].id@ == row.id@);
        if in_here {
            lemma_filter_is_part(rows, not_lives, m);
        } else {
            lemma_filter_is_part(rows, lives, m);
        }
        let l = choose|l: int| 0 <= l < rows.len() && #[trigger] rows[l] == theirs[m];
        if l < n {
            assert(rows[l].id@ != rows[n].id@);
        } else if n < l {
            assert(rows[n].id@ != rows[l].id@);
        }
        assert(false);
    }
}

// ---------------------------------------------------------------------------
// What the list shows
// ---------------------------------------------------------------------------

/// The glyph of a state, one character each.
pub open spec fn badge_text(state: LastState, tick: int) -> Seq<char> {
    match state {
        LastState::New => " "@,
        LastState::Working => frame_text(tick),
        LastState::AwaitingApproval => "?"@,
        LastState::Failed => "\u{2717}"@,
        LastState::Replied => "\u{2713}"@,
        LastState::NoReply => "\u{22ef}"@,
        LastState::Interrupted => "\u{2691}"@,
    }
}

pub open spec fn badge_tone(state: LastState) -> Tone {
    match state {
        LastState::New => Tone::Plain,
        LastState::Working => Tone::Yellow,
        LastState::AwaitingApproval => Tone::YellowBold,
        LastState::Failed => Tone::RedBold,
        LastState::Replied => Tone::Green,
        LastState::NoReply => Tone::Cyan,
        LastState::Interrupted => Tone::Yellow,
    }
}

/// The glyph of a state and how it looks.
pub fn state_badge(state: LastState, tick: usize) -> (r: (&'static str, Tone))
    ensures
        r.0@ == badge_text(state, tick as int),
        r.1 == badge_tone(state),
{
    match state {
        LastState::New => (" ", Tone::Plain),
        LastState::Working => (frame(tick), Tone::Yellow),
        LastState::AwaitingApproval => ("?", Tone::YellowBold),
        LastState::Failed => ("\u{2717}", Tone::RedBold),
        LastState::Replied => ("\u{2713}", Tone::Green),
        LastState::NoReply => ("\u{22ef}", Tone::Cyan),
        LastState::Interrupted => ("\u{2691}", Tone::Yellow),
    }
}

/// Every badge is one character.
pub proof fn a_badge_is_one_character(state: LastState, tick: int)
    ensures
        badge_text(state, tick).len() == 1,
{
    crate::tui::rows::a_frame_is_one_character(tick);
    reveal_strlit(" ");
    reveal_strlit("?");
    reveal_strlit("\u{2717}");
    reveal_strlit("\u{2713}");
    reveal_strlit("\u{22ef}");
    reveal_strlit("\u{2691}");
}

/// No two states but for different frames of the spinner share a badge.
pub proof fn every_state_has_its_own_badge(a: LastState, b: LastState, tick: int)
    requires
        badge_text(a, tick) == badge_text(b, tick),
    ensures
        a == b,
{
    reveal_strlit(" ");
    reveal_strlit("?");
    reveal_strlit("\u{2717}");
    reveal_strlit("\u{2713}");
    reveal_strlit("\u{22ef}");
    reveal_strlit("\u{2691}");
    reveal_strlit("\u{280b}");
    reveal_strlit("\u{2819}");
    reveal_strlit("\u{2839}");
    reveal_strlit("\u{2838}");
    reveal_strlit("\u{283c}");
    reveal_strlit("\u{2834}");
    reveal_strlit("\u{2826}");
    reveal_strlit("\u{2827}");
    reveal_strlit("\u{2807}");
    reveal_strlit("\u{280f}");
    assert(badge_text(LastState::New, tick)[0] == ' ');
    assert(badge_text(LastState::AwaitingApproval, tick)[0] == '?');
    assert(badge_text(LastState::Failed, tick)[0] == '\u{2717}');
    assert(badge_text(LastState::Replied, tick)[0] == '\u{2713}');
    assert(badge_text(LastState::NoReply, tick)[0] == '\u{22ef}');
    assert(badge_text(LastState::Interrupted, tick)[0] == '\u{2691}');
    let spun = badge_text(LastState::Working, tick)[0];
    assert(spun != ' ' && spun != '?' && spun != '\u{2717}' && spun != '\u{2713}' && spun
        != '\u{22ef}' && spun != '\u{2691}');
    assert(badge_text(a, tick)[0] == badge_text(b, tick)[0]);
}

/// A cell of the grid: cut to leave a gutter of two columns, and filled up.
pub open spec fn cell_text(s: Seq<char>, width: nat) -> Seq<char> {
    left_aligned(
        clipped(
            s,
            if width > 2 {
                (width - 2) as nat
            } else {
                0
            },
        ),
        width,
    )
}

/// A cell of the grid.
pub fn column(text: &str, width: usize) -> (r: String)
    ensures
        r@ == cell_text(text@, width as nat),
{
    let room: usize = if width > 2 {
        width - 2
    } else {
        0
    };
    let cut: String = clip(text, room);
    align_left(&cut, width)
}

/// A cell is exactly as wide as its column, and two columns wide at least it
/// ends with its gutter.
pub proof fn a_cell_keeps_its_gutter(s: Seq<char>, width: nat)
    requires
        width >= 2,
    ensures
        cell_text(s, width).len() == width,
        cell_text(s, width)[width - 1] == ' ',
        cell_text(s, width)[width - 2] == ' ',
{
    crate::tui::render::a_clipped_text_fits(s, (width - 2) as nat);
}

/// How long ago something was, roughly.
pub open spec fn ago_text(seconds: int) -> Seq<char> {
    if seconds < 60 {
        "just now"@
    } else if seconds < 3600 {
        decimal((seconds / 60) as nat) + "m ago"@
    } else if seconds < 86_400 {
        decimal((seconds / 3600) as nat) + "h ago"@
    } else if seconds < 2_592_000 {
        decimal((seconds / 86_400) as nat) + "d ago"@
    } else {
        decimal((seconds / 2_592_000) as nat) + "mo ago"@
    }
}

/// The seconds between two moments, within the range of a number.
pub open spec fn seconds_between(now: i64, then_at: i64) -> int {
    if now - then_at > i64::MAX {
        i64::MAX as int
    } else if now - then_at < i64::MIN {
        i64::MIN as int
    } else {
        now - then_at
    }
}

/// How long ago a moment was, roughly.
pub fn relative_time(now: i64, timestamp: i64) -> (r: String)
    ensures
        r@ == ago_text(seconds_between(now, timestamp)),
{
    let difference: i128 = now as i128 - timestamp as i128;
    let seconds: i64 = if difference > 9223372036854775807 {
        9223372036854775807
    } else if difference < 0 {
        return String::from_str("just now");
    } else {
        difference as i64
    };
    if seconds < 60 {
        String::from_str("just now")
    } else if seconds < 3600 {
        concat2(&decimal_of((seconds / 60) as u64), "m ago")
    } else if seconds < 86_400 {
        concat2(&decimal_of((seconds / 3600) as u64), "h ago")
    } else if seconds < 2_592_000 {
        concat2(&decimal_of((seconds / 86_400) as u64), "d ago")
    } else {
        concat2(&decimal_of((seconds / 2_592_000) as u64), "mo ago")
    }
}

/// What the list shows of a session's directory: under the label of the
/// current one it is spelled out on the first row alone.
pub open spec fn dir_cell(
    dir: Option<Seq<char>>,
    repeated: bool,
    home: Option<Seq<char>>,
) -> Seq<char> {
    if repeated {
        "\u{2026}"@
    } else {
        match dir {
            Some(d) => home_relative_text(d, home),
            None => "dir not recorded"@,
        }
    }
}

fn dir_of(dir: &Option<String>, repeated: bool, home: &Option<String>) -> (r: String)
    ensures
        r@ == dir_cell(opt_view(*dir), repeated, opt_view(*home)),
{
    if repeated {
        String::from_str("\u{2026}")
    } else {
        match dir {
            Some(d) => home_relative(d, home),
            None => String::from_str("dir not recorded"),
        }
    }
}

/// What surrounds the list: the width of the pane, the spinner's tick, the
/// time, and the home directory where it is known.
pub struct Surroundings {
    pub width: u16,
    pub tick: usize,
    pub now: i64,
    pub home: Option<String>,
}

/// The cells of a session's line, behind the cursor's column.
pub open spec fn session_cells(
    row: SessionRow,
    selected: bool,
    repeated: bool,
    s: Surroundings,
) -> Seq<SpanView> {
    let state = state_of(row.activity, row.last);
    let agentic = row.kind@ == KIND_AGENT_CHAT@;
    seq![
        span_of(mark_text(row.id@), Tone::Indexed(mark_tone(row.id@))),
        span_of(" "@, Tone::Plain),
        span_of(badge_text(state, s.tick as int) + " "@, badge_tone(state)),
        span_of(
            cell_text(mode_text(agentic), 7),
            if agentic {
                Tone::Yellow
            } else {
                Tone::Cyan
            },
        ),
        span_of(
            cell_text(row.title@, 24),
            if selected {
                Tone::Bold
            } else {
                Tone::Plain
            },
        ),
        span_of(
            cell_text(dir_cell(opt_view(row.working_dir), repeated, opt_view(s.home)), 24),
            Tone::DarkGray,
        ),
        span_of(
            cell_text(ago_text(seconds_between(s.now, row.updated_at)), 8),
            Tone::DarkGray,
        ),
    ]
}

/// What was last said, in the room that a line has left, where that is enough
/// to say something.
pub open spec fn preview_cells(row: SessionRow, width: u16) -> Seq<SpanView> {
    let room = if width > 72 {
        width - 72
    } else {
        0
    };
    match preview_of(row) {
        Some(preview) => if room >= 12 {
            seq![span_of("  "@ + clipped(preview, room as nat), Tone::DarkGrayItalic)]
        } else {
            Seq::empty()
        },
        None => Seq::empty(),
    }
}

/// A session's line.
pub open spec fn session_spans(
    row: SessionRow,
    selected: bool,
    repeated: bool,
    s: Surroundings,
) -> Seq<SpanView> {
    seq![cursor_span(selected)] + session_cells(row, selected, repeated, s) + preview_cells(
        row,
        s.width,
    )
}

pub open spec fn cursor_span(selected: bool) -> SpanView {
    span_of(
        if selected {
            "\u{276f} "@
        } else {
            "  "@
        },
        Tone::CyanBold,
    )
}

fn cursor_mark(selected: bool) -> (r: Span)
    ensures
        r@ == cursor_span(selected),
{
    span(
        if selected {
            "\u{276f} "
        } else {
            "  "
        },
        Tone::CyanBold,
    )
}

fn session_line(row: &SessionRow, selected: bool, repeated: bool, s: &Surroundings) -> (r: Vec<Span>)
    ensures
        span_views(r@) == session_spans(*row, selected, repeated, *s),
{
    let mut spans: Vec<Span> = one_span(cursor_mark(selected));
    let (mark, colour): (String, u8) = identicon(&row.id);
    push_span(&mut spans, Span { content: mark, tone: Tone::Indexed(colour) });
    push_span(&mut spans, span(" ", Tone::Plain));
    let (glyph, tone): (&str, Tone) = state_badge(row.last_state(), s.tick);
    push_span(&mut spans, Span { content: concat2(glyph, " "), tone });
    let agentic: bool = row.is_agentic();
    push_span(
        &mut spans,
        Span {
            content: column(mode_label(agentic), 7),
            tone: if agentic {
                Tone::Yellow
            } else {
                Tone::Cyan
            },
        },
    );
    push_span(
        &mut spans,
        Span {
            content: column(&row.title, 24),
            tone: if selected {
                Tone::Bold
            } else {
                Tone::Plain
            },
        },
    );
    push_span(
        &mut spans,
        Span {
            content: column(&dir_of(&row.working_dir, repeated, &s.home), 24),
            tone: Tone::DarkGray,
        },
    );
    push_span(
        &mut spans,
        Span { content: column(&relative_time(s.now, row.updated_at), 8), tone: Tone::DarkGray },
    );
    assert(span_views(spans@) =~= seq![cursor_span(selected)] + session_cells(
        *row,
        selected,
        repeated,
        *s,
    ));
    let room: u16 = if s.width > 72 {
        s.width - 72
    } else {
        0
    };
    match row.preview() {
        Some(preview) => {
            if room >= 12 {
                push_span(
                    &mut spans,
                    Span {
                        content: concat2("  ", &clip(&preview, room as usize)),
                        tone: Tone::DarkGrayItalic,
                    },
                );
            }
        },
        None => {},
    }
    assert(span_views(spans@) =~= session_spans(*row, selected, repeated, *s));
    spans
}

/// How the rows of a list depend on those above them: whether they stand in
/// the section of the current directory, and whether that has been named.
pub struct SectionState {
    pub here: bool,
    pub named: bool,
}

/// The state behind the first entries of a list.
pub open spec fn section_state(items: Seq<LaunchItem>) -> SectionState
    decreases items.len(),
{
    if items.len() == 0 {
        SectionState { here: false, named: false }
    } else {
        let before = section_state(items.drop_last());
        match items.last() {
            LaunchItem::NewSession => before,
            LaunchItem::Header(label) => SectionState { here: label@ == HERE_SECTION@, named: false },
            LaunchItem::Resume(_) => SectionState {
                here: before.here,
                named: before.named || before.here,
            },
        }
    }
}

/// The row of one entry, with the blank one above a label.
pub open spec fn entry_rows_shown(
    items: Seq<LaunchItem>,
    i: int,
    selected: bool,
    s: Surroundings,
) -> Seq<RowView> {
    match items[i] {
        LaunchItem::NewSession => highlighted(
            seq![
                plain_row(
                    seq![
                        cursor_span(selected),
                        span_of(
                            "New session"@,
                            if selected {
                                Tone::GreenBold
                            } else {
                                Tone::Green
                            },
                        ),
                    ],
                ),
            ],
            s.width as nat,
            selected,
        ),
        LaunchItem::Header(label) => seq![blank_row()] + highlighted(
            seq![plain_row(seq![span_of("  "@ + label@, Tone::DarkGrayItalic)])],
            s.width as nat,
            selected,
        ),
        LaunchItem::Resume(row) => {
            let state = section_state(items.take(i));
            highlighted(
                seq![plain_row(session_spans(row, selected, state.here && state.named, s))],
                s.width as nat,
                selected,
            )
        },
    }
}

/// The rows of the first entries of a list.
pub open spec fn list_rows(
    items: Seq<LaunchItem>,
    n: int,
    selected: int,
    s: Surroundings,
) -> Seq<RowView>
    decreases n,
{
    if n <= 0 {
        Seq::empty()
    } else {
        list_rows(items, n - 1, selected, s) + entry_rows_shown(items, n - 1, n - 1 == selected, s)
    }
}

fn banded_row(spans: Vec<Span>, width: u16, on: bool) -> (r: Vec<Row>)
    ensures
        row_views(r@) == highlighted(seq![plain_row(span_views(spans@))], width as nat, on),
{
    let mut rows: Vec<Row> = Vec::new();
    push_row(&mut rows, row_of(spans));
    assert(row_views(rows@) =~= seq![plain_row(span_views(spans@))]);
    highlight_rows(rows, width as usize, on)
}

/// The rows of the list. The selected one carries the band across its whole
/// width.
pub fn picker_rows(picker: &Picker, s: &Surroundings) -> (r: Vec<Row>)
    ensures
        row_views(r@) == if picker.items@.len() == 0 {
            seq![plain_row(seq![span_of("  no saved sessions yet"@, Tone::DarkGrayItalic)])]
        } else {
            list_rows(picker.items@, picker.items@.len() as int, picker.selected as int, *s)
        },
{
    let mut out: Vec<Row> = Vec::new();
    if picker.items.len() == 0 {
        push_row(&mut out, row_of(one_span(span("  no saved sessions yet", Tone::DarkGrayItalic))));
        assert(row_views(out@) =~= seq![
            plain_row(seq![span_of("  no saved sessions yet"@, Tone::DarkGrayItalic)]),
        ]);
        return out;
    }
    let mut here: bool = false;
    let mut named: bool = false;
    let mut i: usize = 0;
    assert(row_views(out@) =~= Seq::<RowView>::empty());
    assert(picker.items@.take(0) =~= Seq::empty());
    while i < picker.items.len()
        invariant
            i <= picker.items@.len(),
            section_state(picker.items@.take(i as int)) == (SectionState { here, named }),
            row_views(out@) == list_rows(picker.items@, i as int, picker.selected as int, *s),
        decreases picker.items@.len() - i,
    {
        let selected: bool = i == picker.selected;
        let ghost before = row_views(out@);
        assert(picker.items@.take(i + 1).drop_last() =~= picker.items@.take(i as int));
        assert(picker.items@.take(i + 1).last() == picker.items@[i as int]);
        match &picker.items[i] {
            LaunchItem::NewSession => {
                let spans: Vec<Span> = two_spans(
                    cursor_mark(selected),
                    span(
                        "New session",
                        if selected {
                            Tone::GreenBold
                        } else {
                            Tone::Green
                        },
                    ),
                );
                crate::tui::rows::append_rows(&mut out, banded_row(spans, s.width, selected));
            },
            LaunchItem::Header(label) => {
                here = same(label, HERE_SECTION);
                named = false;
                push_row(&mut out, blank());
                let spans: Vec<Span> = one_span(
                    Span { content: concat2("  ", label), tone: Tone::DarkGrayItalic },
                );
                crate::tui::rows::append_rows(&mut out, banded_row(spans, s.width, selected));
                assert(row_views(out@) =~= before + entry_rows_shown(
                    picker.items@,
                    i as int,
                    selected,
                    *s,
                ));
            },
            LaunchItem::Resume(row) => {
                let spans: Vec<Span> = session_line(row, selected, here && named, s);
                named = named || here;
                crate::tui::rows::append_rows(&mut out, banded_row(spans, s.width, selected));
            },
        }
        i = i + 1;
    }
    out
}

/// The line under the list: the text that is typed, or the question that waits,
/// or the keys.
pub open spec fn footer_spans(
    picker: Picker,
    hint: Seq<char>,
    home: Option<Seq<char>>,
) -> Seq<SpanView> {
    match picker.notice {
        Some(notice) => seq![span_of("\u{2717} "@ + notice@, Tone::Red)],
        None => match picker.renaming {
            Some((_, input)) => seq![
                span_of(" rename to: "@, Tone::YellowBold),
                span_of(input@, Tone::Plain),
                span_of("\u{258f}"@, Tone::Yellow),
            ],
            None => match picker.confirming_delete {
                Some(row) => seq![
                    span_of(
                        " delete session "@ + cut(row.id@, 8) + " ("@ + clipped(row.title@, 30) + ")? "@,
                        Tone::RedBold,
                    ),
                    span_of("y / n"@, Tone::Red),
                ],
                None => match picker.confirming_repoint {
                    Some((_, missing)) => seq![
                        span_of(
                            " "@ + home_relative_text(missing@, home)
                                + " is gone \u{2014} resume here instead? "@,
                            Tone::YellowBold,
                        ),
                        span_of("y / n"@, Tone::Yellow),
                    ],
                    None => seq![span_of(" "@ + hint, Tone::DarkGray)],
                },
            },
        },
    }
}

/// The line under the list. A failure takes its place.
pub fn footer_line(picker: &Picker, hint: &str, home: &Option<String>) -> (r: Vec<Span>)
    requires
        picker.renaming is None ==> (picker.confirming_delete matches Some(row) ==> can_cut(
            row.id@,
            8,
        )),
    ensures
        span_views(r@) == footer_spans(*picker, hint@, opt_view(*home)),
{
    match &picker.notice {
        Some(notice) => {
            return one_span(Span { content: concat2("\u{2717} ", notice), tone: Tone::Red });
        },
        None => {},
    }
    match &picker.renaming {
        Some((_, input)) => {
            let mut spans: Vec<Span> = two_spans(
                span(" rename to: ", Tone::YellowBold),
                span(input, Tone::Plain),
            );
            push_span(&mut spans, span("\u{258f}", Tone::Yellow));
            assert(span_views(spans@) =~= seq![
                span_of(" rename to: "@, Tone::YellowBold),
                span_of(input@, Tone::Plain),
                span_of("\u{258f}"@, Tone::Yellow),
            ]);
            return spans;
        },
        None => {},
    }
    match &picker.confirming_delete {
        Some(row) => {
            let mut text: String = concat4(
                " delete session ",
                row.short_id(),
                " (",
                &clip(&row.title, 30),
            );
            text.append(")? ");
            return two_spans(
                Span { content: text, tone: Tone::RedBold },
                span("y / n", Tone::Red),
            );
        },
        None => {},
    }
    match &picker.confirming_repoint {
        Some((_, missing)) => two_spans(
            Span {
                content: concat3(
                    " ",
                    &home_relative(missing, home),
                    " is gone \u{2014} resume here instead? ",
                ),
                tone: Tone::YellowBold,
            },
            span("y / n", Tone::Yellow),
        ),
        None => one_span(Span { content: concat2(" ", hint), tone: Tone::DarkGray }),
    }
}

/// The line above the list: its title, and the current directory.
pub fn heading_line(title: &str, dir: &Option<String>, home: &Option<String>) -> (r: Vec<Span>)
    ensures
        span_views(r@) == match *dir {
            Some(d) => seq![
                span_of(title@, Tone::Bold),
                span_of("  "@ + home_relative_text(d@, opt_view(*home)), Tone::DarkGray),
            ],
            None => seq![span_of(title@, Tone::Bold)],
        },
{
    match dir {
        Some(d) => two_spans(
            span(title, Tone::Bold),
            Span { content: concat2("  ", &home_relative(d, home)), tone: Tone::DarkGray },
        ),
        None => one_span(span(title, Tone::Bold)),
    }
}

/// What the screen that asks for a title shows: a blank row, then the title
/// typed so far.
pub fn naming_rows(input: &str) -> (r: Vec<Row>)
    ensures
        row_views(r@) == seq![
            blank_row(),
            plain_row(
                seq![
                    span_of("  Session title  "@, Tone::DarkGray),
                    span_of(input@, Tone::Plain),
                    span_of("\u{258f}"@, Tone::Yellow),
                ],
            ),
        ],
{
    let mut rows: Vec<Row> = Vec::new();
    push_row(&mut rows, blank());
    let mut spans: Vec<Span> = two_spans(
        span("  Session title  ", Tone::DarkGray),
        span(input, Tone::Plain),
    );
    push_span(&mut spans, span("\u{258f}", Tone::Yellow));
    assert(span_views(spans@) =~= seq![
        span_of("  Session title  "@, Tone::DarkGray),
        span_of(input@, Tone::Plain),
        span_of("\u{258f}"@, Tone::Yellow),
    ]);
    push_row(&mut rows, row_of(spans));
    rows
}

/// The line under the screen that asks for a title.
pub const NAMING_HINT: &'static str = " A title is required \u{b7} Enter start \u{b7} Esc cancel";

// ---------------------------------------------------------------------------
// Laws of the list
// ---------------------------------------------------------------------------

/// What a session's process says of itself counts before what was said last,
/// and of that the last message tells: a reply without calls is one, a call or
/// its answer with nothing behind it was interrupted, and anything else waits.
pub proof fn a_state_is_told_by_process_and_message(
    activity: Activity,
    last: Option<LastMessage>,
    message: LastMessage,
)
    ensures
        state_of(Some(Activity::Working), last) == LastState::Working,
        state_of(Some(Activity::AwaitingApproval), last) == LastState::AwaitingApproval,
        state_of(Some(Activity::Failed), last) == LastState::Failed,
        state_of(None, None) == LastState::New,
        message.role@ == "assistant"@ && !message.has_tool_calls ==> state_of(None, Some(message))
            == LastState::Replied,
        message.role@ == "assistant"@ && message.has_tool_calls ==> state_of(None, Some(message))
            == LastState::Interrupted,
        message.role@ == "tool"@ ==> state_of(None, Some(message)) == LastState::Interrupted,
        message.role@ == "user"@ ==> state_of(None, Some(message)) == LastState::NoReply,
{
    reveal_strlit("assistant");
    reveal_strlit("tool");
    reveal_strlit("user");
    assert("assistant"@.len() == 9 && "tool"@.len() == 4 && "user"@.len() == 4);
    assert("tool"@[0] == 't' && "user"@[0] == 'u');
}

/// What waits for an approval says so; otherwise a session is told by what was
/// said last, and by nothing where that is nothing.
pub proof fn a_preview_says_what_is_waited_for(row: SessionRow)
    ensures
        row.activity == Some(Activity::AwaitingApproval) ==> (row.activity_detail matches Some(
            detail,
        ) ==> preview_of(row) == Some("needs approval \u{2014} "@ + detail@)),
        row.activity != Some(Activity::AwaitingApproval) && row.last is None ==> preview_of(
            row,
        ) is None,
        row.activity != Some(Activity::AwaitingApproval) ==> (row.last matches Some(m) ==> (
        m.preview@.len() > 0 ==> preview_of(row) == Some(m.preview@)) && (m.preview@.len() == 0
            ==> preview_of(row) is None)),
{
}

/// A session belongs to the directory that it was started in, and stands in one
/// of the two sections, in the order it was given.
pub proof fn every_session_stands_in_one_section(
    rows: Seq<SessionRow>,
    row: SessionRow,
    cwd: Seq<char>,
)
    ensures
        rows_here(Seq::empty(), Some(cwd)).len() == 0,
        rows_elsewhere(Seq::empty(), Some(cwd)).len() == 0,
        opt_view(row.working_dir) == Some(cwd) ==> rows_here(rows.push(row), Some(cwd))
            == rows_here(rows, Some(cwd)).push(row) && rows_elsewhere(rows.push(row), Some(cwd))
            == rows_elsewhere(rows, Some(cwd)),
        opt_view(row.working_dir) != Some(cwd) ==> rows_here(rows.push(row), Some(cwd))
            == rows_here(rows, Some(cwd)) && rows_elsewhere(rows.push(row), Some(cwd))
            == rows_elsewhere(rows, Some(cwd)).push(row),
        rows_here(rows.push(row), None) == rows_here(rows, None),
        rows_elsewhere(rows.push(row), None) == rows_elsewhere(rows, None).push(row),
{
    reveal(Seq::filter);
    assert(rows.push(row).drop_last() =~= rows);
}

/// The list starts with a new session, then come the sessions of this directory
/// under their label, then the others under theirs; a section without sessions
/// has no label.
pub proof fn the_list_has_its_sections_in_order(
    here: Seq<SessionRow>,
    elsewhere: Seq<SessionRow>,
    i: int,
    j: int,
)
    requires
        0 <= i < here.len(),
        0 <= j < elsewhere.len(),
    ensures
        ({
            let list = listed(here, elsewhere);
            &&& list.len() == here.len() + elsewhere.len() + 3
            &&& list[0] is New
            &&& list[1] == Entry::Header(HERE_SECTION@)
            &&& list[2 + i] == Entry::Row(here[i])
            &&& list[2int + here.len()] == Entry::Header(ELSEWHERE_SECTION@)
            &&& list[3int + here.len() + j] == Entry::Row(elsewhere[j])
        }),
        listed(Seq::empty(), elsewhere).len() == elsewhere.len() + 2,
        listed(Seq::empty(), elsewhere)[1] == Entry::Header(ELSEWHERE_SECTION@),
        listed(Seq::empty(), elsewhere)[2 + j] == Entry::Row(elsewhere[j]),
        listed(here, Seq::empty()).len() == here.len() + 2,
        listed(Seq::empty(), Seq::empty()).len() == 1,
{
}

/// The row above or below is the nearest one that the cursor can stand on.
pub proof fn the_next_row_is_the_nearest(items: Seq<LaunchItem>, i: int)
    requires
        0 <= i < items.len(),
    ensures
        above(items, i) matches Some(j) ==> 0 <= j < i && is_selectable(items, j) && forall|k: int|
            j < k < i ==> !is_selectable(items, k),
        above(items, i) is None ==> forall|k: int| 0 <= k < i ==> !is_selectable(items, k),
        below(items, i) matches Some(j) ==> i < j < items.len() && is_selectable(items, j)
            && forall|k: int| i < k < j ==> !is_selectable(items, k),
        below(items, i) is None ==> forall|k: int|
            i < k < items.len() ==> !is_selectable(items, k),
        is_selectable(items, i) ==> resting(items, i) == i,
{
    nearest_above(items, i);
    nearest_below(items, i);
}

proof fn nearest_above(items: Seq<LaunchItem>, i: int)
    requires
        i < items.len(),
    ensures
        above(items, i) matches Some(j) ==> 0 <= j < i && is_selectable(items, j) && forall|k: int|
            j < k < i ==> !is_selectable(items, k),
        above(items, i) is None ==> forall|k: int| 0 <= k < i ==> !is_selectable(items, k),
    decreases i,
{
    if i > 0 && !is_selectable(items, i - 1) {
        nearest_above(items, i - 1);
    }
}

proof fn nearest_below(items: Seq<LaunchItem>, i: int)
    requires
        0 <= i,
    ensures
        below(items, i) matches Some(j) ==> i < j < items.len() && is_selectable(items, j)
            && forall|k: int| i < k < j ==> !is_selectable(items, k),
        below(items, i) is None ==> forall|k: int|
            i < k < items.len() ==> !is_selectable(items, k),
    decreases items.len() - i,
{
    if i + 1 < items.len() && !is_selectable(items, i + 1) {
        nearest_below(items, i + 1);
    }
}

/// A session is found by its id, wherever it stands.
pub proof fn a_session_is_found_by_its_id(items: Seq<LaunchItem>, id: Seq<char>, i: int)
    requires
        0 <= i < items.len(),
        items[i] matches LaunchItem::Resume(row) && row.id@ == id,
        forall|j: int| 0 <= j < i ==> !(#[trigger] items[j] matches LaunchItem::Resume(row)
            && row.id@ == id),
    ensures
        row_index(items, id) == Some(i),
    decreases items.len(),
{
    let rest = items.drop_last();
    assert forall|j: int| 0 <= j < i implies !(#[trigger] rest[j] matches LaunchItem::Resume(row)
        && row.id@ == id) by {
        assert(rest[j] == items[j]);
    }
    if i < rest.len() {
        assert(rest[i] == items[i]);
        a_session_is_found_by_its_id(rest, id, i);
    } else {
        assert forall|j: int| 0 <= j < rest.len() implies !(
        #[trigger] rest[j] matches LaunchItem::Resume(row) && row.id@ == id) by {
            assert(rest[j] == items[j]);
        }
        an_absent_session_is_not_found(rest, id);
    }
}

proof fn an_absent_session_is_not_found(items: Seq<LaunchItem>, id: Seq<char>)
    requires
        forall|j: int| 0 <= j < items.len() ==> !(#[trigger] items[j] matches LaunchItem::Resume(
            row,
        ) && row.id@ == id),
    ensures
        row_index(items, id) is None,
    decreases items.len(),
{
    if items.len() > 0 {
        let rest = items.drop_last();
        assert(!(items[items.len() - 1] matches LaunchItem::Resume(row) && row.id@ == id));
        assert forall|j: int| 0 <= j < rest.len() implies !(
        #[trigger] rest[j] matches LaunchItem::Resume(row) && row.id@ == id) by {
            assert(rest[j] == items[j]);
        }
        an_absent_session_is_not_found(rest, id);
    }
}

/// When the list is read again the cursor stays on the session it stood on.
pub proof fn the_cursor_stays_on_its_session(
    picker: Picker,
    row: SessionRow,
    items: Seq<LaunchItem>,
    i: int,
)
    requires
        picker.current() == Some(row),
        0 <= i < items.len(),
        items[i] matches LaunchItem::Resume(r) && r.id@ == row.id@,
        forall|j: int| 0 <= j < i ==> !(#[trigger] items[j] matches LaunchItem::Resume(r) && r.id@
            == row.id@),
    ensures
        picker.follows(items) == i,
{
    a_session_is_found_by_its_id(items, row.id@, i);
}

/// A cell starts as its text does and is as wide as its column.
pub proof fn a_cell_shows_the_start_of_its_text(s: Seq<char>, width: nat)
    requires
        width > 2,
        s.len() <= width - 2,
        !s.contains('\n'),
    ensures
        cell_text(s, width).len() == width,
        cell_text(s, width).take(s.len() as int) == s,
        forall|i: int| s.len() <= i < width ==> #[trigger] cell_text(s, width)[i] == ' ',
{
    let clip = clipped(s, (width - 2) as nat);
    assert forall|i: int| 0 <= i < s.len() implies #[trigger] clip[i] == s[i] by {
        assert(s.contains(s[i]));
    }
    assert(clip =~= s);
    assert(cell_text(s, width).take(s.len() as int) =~= s);
}

/// A time ago is told in its largest whole unit.
pub proof fn a_time_ago_is_told_in_its_largest_unit(n: nat, rest: int)
    ensures
        0 <= rest < 60 ==> ago_text(rest) == "just now"@,
        rest < 0 ==> ago_text(rest) == "just now"@,
        1 <= n < 60 && 0 <= rest < 60 ==> ago_text(n * 60 + rest) == decimal(n) + "m ago"@,
        1 <= n < 24 && 0 <= rest < 3600 ==> ago_text(n * 3600 + rest) == decimal(n) + "h ago"@,
        1 <= n < 30 && 0 <= rest < 86_400 ==> ago_text(n * 86_400 + rest) == decimal(n)
            + "d ago"@,
        1 <= n && 0 <= rest < 2_592_000 ==> ago_text(n * 2_592_000 + rest) == decimal(n)
            + "mo ago"@,
{
    assert(1 <= n && 0 <= rest < 60 ==> (n * 60 + rest) / 60 == n);
    assert(1 <= n && 0 <= rest < 3600 ==> (n * 3600 + rest) / 3600 == n);
    assert(1 <= n && 0 <= rest < 86_400 ==> (n * 86_400 + rest) / 86_400 == n);
    assert(1 <= n && 0 <= rest < 2_592_000 ==> (n * 2_592_000 + rest) / 2_592_000 == n);
}

/// The time between two moments is their difference, as far as it can be told.
pub proof fn the_time_between_is_the_difference(now: i64, then_at: i64)
    ensures
        i64::MIN <= now - then_at <= i64::MAX ==> seconds_between(now, then_at) == now - then_at,
        now - then_at > i64::MAX ==> seconds_between(now, then_at) == i64::MAX,
        now - then_at < i64::MIN ==> seconds_between(now, then_at) == i64::MIN,
{
}

/// A directory is shown from home, one that is not known is said to be, and one
/// that stands above already is not repeated.
pub proof fn a_directory_is_named_once(dir: Seq<char>, home: Option<Seq<char>>)
    ensures
        dir_cell(Some(dir), false, home) == home_relative_text(dir, home),
        dir_cell(None, false, home) == "dir not recorded"@,
        dir_cell(Some(dir), true, home) == "\u{2026}"@,
        dir_cell(None, true, home) == "\u{2026}"@,
{
}

/// A session's line shows its mark, its state, its mode, its title, its
/// directory and when it was touched, in this order, each in its own column.
pub proof fn a_line_shows_each_thing_in_its_column(
    row: SessionRow,
    selected: bool,
    repeated: bool,
    s: Surroundings,
)
    ensures
        ({
            let cells = session_cells(row, selected, repeated, s);
            let line = session_spans(row, selected, repeated, s);
            &&& cells.len() == 7
            &&& cells[0].content == mark_text(row.id@)
            &&& cells[2].content == badge_text(state_of(row.activity, row.last), s.tick as int)
                + " "@
            &&& row.kind@ == "agent_chat"@ ==> cells[3].content == cell_text("agent"@, 7)
            &&& row.kind@ != "agent_chat"@ ==> cells[3].content == cell_text("ask"@, 7)
            &&& cells[4].content == cell_text(row.title@, 24)
            &&& !repeated ==> (row.working_dir matches Some(dir) ==> cells[5].content == cell_text(
                home_relative_text(dir@, opt_view(s.home)),
                24,
            ))
            &&& cells[6].content == cell_text(
                ago_text(seconds_between(s.now, row.updated_at)),
                8,
            )
            &&& line.len() >= 8
            &&& forall|i: int| 0 <= i < 7 ==> line[i + 1] == #[trigger] cells[i]
            &&& selected ==> line[0].content == "\u{276f} "@
            &&& !selected ==> line[0].content == "  "@
            &&& line.skip(8) == preview_cells(row, s.width)
        }),
{
    let line = session_spans(row, selected, repeated, s);
    assert(line.skip(8) =~= preview_cells(row, s.width));
}

/// What was last said stands at the end of a line, in the room that is left,
/// where that is at least twelve columns.
pub proof fn a_preview_takes_the_room_that_is_left(row: SessionRow, width: u16)
    ensures
        width < 84 ==> preview_cells(row, width).len() == 0,
        preview_of(row) is None ==> preview_cells(row, width).len() == 0,
        width >= 84 ==> (preview_of(row) matches Some(preview) ==> preview_cells(row, width).len()
            == 1 && preview_cells(row, width)[0].content == "  "@ + clipped(
            preview,
            (width - 72) as nat,
        )),
{
}

/// The entries of the list are shown one behind the other, each once.
pub proof fn entries_are_shown_one_behind_the_other(
    items: Seq<LaunchItem>,
    n: int,
    selected: int,
    s: Surroundings,
)
    requires
        0 <= n < items.len(),
    ensures
        list_rows(items, 0, selected, s).len() == 0,
        list_rows(items, n + 1, selected, s) == list_rows(items, n, selected, s)
            + entry_rows_shown(items, n, n == selected, s),
        items[n] is NewSession ==> entry_rows_shown(items, n, false, s).len() == 1 && ink(
            entry_rows_shown(items, n, false, s)[0].spans,
        ) == "  "@ + "New session"@,
        items[n] matches LaunchItem::Header(label) ==> entry_rows_shown(items, n, false, s).len()
            == 2 && ink(entry_rows_shown(items, n, false, s)[1].spans) == "  "@ + label@,
        items[n] matches LaunchItem::Resume(row) ==> entry_rows_shown(items, n, false, s).len()
            == 1,
{
    let a = cursor_span(false);
    let b = span_of("New session"@, Tone::Green);
    pieces_stand_one_behind_the_other(a, b, b);
    match items[n] {
        LaunchItem::Header(label) => {
            let c = span_of("  "@ + label@, Tone::DarkGrayItalic);
            pieces_stand_one_behind_the_other(c, c, c);
        },
        _ => {},
    }
}

/// In the section of this directory only the first session names it; in the
/// other each does.
pub proof fn only_the_first_names_this_directory(
    items: Seq<LaunchItem>,
    label: &'static str,
    row: SessionRow,
)
    ensures
        ({
            let opened = section_state(items.push(LaunchItem::Header(label)));
            &&& opened.here == (label@ == HERE_SECTION@)
            &&& !opened.named
        }),
        ({
            let before = section_state(items);
            let after = section_state(items.push(LaunchItem::Resume(row)));
            &&& after.here == before.here
            &&& before.here ==> after.named
            &&& !before.here ==> after.named == before.named
        }),
        !section_state(Seq::empty()).here,
{
    assert(items.push(LaunchItem::Header(label)).drop_last() =~= items);
    assert(items.push(LaunchItem::Resume(row)).drop_last() =~= items);
}

/// The foot of the list shows why opening failed before anything else, then the
/// question that is open, and the keys where there is none.
pub proof fn the_foot_shows_what_matters_most(
    picker: Picker,
    hint: Seq<char>,
    home: Option<Seq<char>>,
)
    ensures
        picker.notice matches Some(notice) ==> ink(footer_spans(picker, hint, home))
            == "\u{2717} "@ + notice@,
        picker.notice is None ==> (picker.renaming matches Some((row, title)) ==> ink(
            footer_spans(picker, hint, home),
        ) == " rename to: "@ + title@ + "\u{258f}"@),
        picker.notice is None && picker.renaming is None ==> (picker.confirming_delete
            matches Some(row) ==> ink(footer_spans(picker, hint, home)) == " delete session "@
            + cut(row.id@, 8) + " ("@ + clipped(row.title@, 30) + ")? "@ + "y / n"@),
        picker.notice is None && picker.renaming is None && picker.confirming_delete is None
            && picker.confirming_repoint is None ==> ink(footer_spans(picker, hint, home)) == " "@
            + hint,
{
    let spans = footer_spans(picker, hint, home);
    if spans.len() == 1 {
        assert(spans =~= seq![spans[0]]);
        pieces_stand_one_behind_the_other(spans[0], spans[0], spans[0]);
    } else if spans.len() == 2 {
        assert(spans =~= seq![spans[0], spans[1]]);
        pieces_stand_one_behind_the_other(spans[0], spans[1], spans[1]);
    } else {
        assert(spans =~= seq![spans[0], spans[1], spans[2]]);
        pieces_stand_one_behind_the_other(spans[0], spans[1], spans[2]);
    }
}

/// A row of the list takes over what is stored of its session.
pub proof fn a_row_takes_over_its_session(summary: SessionSummary)
    ensures
        row_of_summary(summary).id == summary.id,
        row_of_summary(summary).kind == summary.kind,
        row_of_summary(summary).title == summary.title,
        row_of_summary(summary).updated_at == summary.updated_at,
        row_of_summary(summary).working_dir == summary.working_dir,
        row_of_summary(summary).activity == summary.activity,
        row_of_summary(summary).activity_detail == summary.activity_detail,
        row_of_summary(summary).last is None,
{
}

/// Removing a session removes it alone: every other one stays, in its order.
pub proof fn removing_removes_one_session(rows: Seq<SessionRow>, row: SessionRow, id: Seq<char>)
    ensures
        without_id(Seq::empty(), id).len() == 0,
        row.id@ == id ==> without_id(rows.push(row), id) == without_id(rows, id),
        row.id@ != id ==> without_id(rows.push(row), id) == without_id(rows, id).push(row),
{
    reveal(Seq::filter);
    assert(rows.push(row).drop_last() =~= rows);
}

/// The sign and the tone of each state.
pub proof fn each_state_has_its_sign(tick: int)
    ensures
        badge_text(LastState::New, tick) == " "@,
        badge_text(LastState::Working, tick) == frame_text(tick),
        badge_text(LastState::AwaitingApproval, tick) == "?"@,
        badge_text(LastState::Failed, tick) == "\u{2717}"@,
        badge_text(LastState::Replied, tick) == "\u{2713}"@,
        badge_text(LastState::NoReply, tick) == "\u{22ef}"@,
        badge_text(LastState::Interrupted, tick) == "\u{2691}"@,
{
}

/// Two rows that show the same are told to be the same, and a difference in
/// anything that a row shows is seen.
pub proof fn a_difference_in_what_is_shown_is_seen(a: SessionRow, b: SessionRow)
    requires
        row_texts(a) == row_texts(b),
    ensures
        a.id@ == b.id@,
        a.kind@ == b.kind@,
        a.title@ == b.title@,
        a.updated_at == b.updated_at,
        opt_view(a.working_dir) == opt_view(b.working_dir),
        a.activity == b.activity,
        opt_view(a.activity_detail) == opt_view(b.activity_detail),
        a.last is None <==> b.last is None,
        a.last matches Some(m) ==> (b.last matches Some(n) && m.role@ == n.role@
            && m.has_tool_calls == n.has_tool_calls && m.preview@ == n.preview@),
{
}

/// Where the session under the cursor is gone the cursor stays about where it
/// was: in its place, or on the last row of a shorter list.
pub proof fn the_cursor_stays_about_where_it_was(
    picker: Picker,
    row: SessionRow,
    items: Seq<LaunchItem>,
)
    requires
        picker.current() == Some(row),
        items.len() > 0,
        row_index(items, row.id@) is None,
    ensures
        picker.selected < items.len() && is_selectable(items, picker.selected as int)
            ==> picker.follows(items) == picker.selected,
        picker.selected >= items.len() && is_selectable(items, items.len() - 1)
            ==> picker.follows(items) == items.len() - 1,
{
}

} // verus!
