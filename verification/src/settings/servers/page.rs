//! The Servers page's list without a window: which rows it draws and what
//! each offers, and what connecting, removing, adding and saving do to the
//! list and the choice, with the events the shell persists and dials from.
use vstd::prelude::*;
use crate::settings::servers::{ConnectionStatus, RemoteEngineTarget, ServerEntry, entry_url};
use crate::settings::servers::active::{
    ActiveRow, canonical_chars, canonical_spec, entry_at, entry_at_exec, entry_by_id, entry_by_id_exec,
    lemma_entry_bounds,
};
use crate::settings::servers::add::{
    engine_address, entry_for_target, field_text, is_uuid_v4_text, parse_server, parse_server_spec, refused_message,
};
use crate::text::{append, chars_eq, chars_of, copy_opt, decimal, decimal_chars, opt_view, owned, string_of};

verus! {

/// A saved entry, by its values.
pub open spec fn entry_view(e: ServerEntry) -> (Seq<char>, Seq<char>, Seq<char>, u16, Option<Seq<char>>) {
    (e.id@, e.name@, e.host@, e.port, opt_view(e.token))
}

pub open spec fn entries_view(s: Seq<ServerEntry>) -> Seq<(Seq<char>, Seq<char>, Seq<char>, u16, Option<Seq<char>>)> {
    s.map_values(|e: ServerEntry| entry_view(e))
}

/// What the page tells the shell.
#[derive(Debug, Clone, PartialEq, Eq)]
pub enum ServersEvent {
    /// The list or the choice changed; the shell persists them.
    Changed { servers: Vec<ServerEntry>, active: Option<String> },
    /// Dial this engine now (`None`: back to the local engine).
    Connect(Option<RemoteEngineTarget>),
}

/// An event, by its values.
pub enum EventView {
    Changed(Seq<(Seq<char>, Seq<char>, Seq<char>, u16, Option<Seq<char>>)>, Option<Seq<char>>),
    /// The address, token and name dialed, or the local engine.
    Connect(Option<(Seq<char>, Option<Seq<char>>, Option<Seq<char>>)>),
}

pub open spec fn target_view(t: Option<RemoteEngineTarget>) -> Option<(Seq<char>, Option<Seq<char>>, Option<Seq<char>>)> {
    match t {
        Some(t) => Some((t.url@, opt_view(t.token), opt_view(t.name))),
        None => None,
    }
}

pub open spec fn event_view(e: ServersEvent) -> EventView {
    match e {
        ServersEvent::Changed { servers, active } => EventView::Changed(entries_view(servers@), opt_view(active)),
        ServersEvent::Connect(t) => EventView::Connect(target_view(t)),
    }
}

pub open spec fn events_view(v: Seq<ServersEvent>) -> Seq<EventView> {
    v.map_values(|e: ServersEvent| event_view(e))
}

/// The saved servers and the one the user picked.
#[derive(Debug)]
pub struct ServersState {
    pub servers: Vec<ServerEntry>,
    pub active: Option<String>,
}

fn copy_entry(e: &ServerEntry) -> (r: ServerEntry)
    ensures
        entry_view(r) == entry_view(*e),
{
    ServerEntry {
        id: owned(e.id.as_str()),
        name: owned(e.name.as_str()),
        host: owned(e.host.as_str()),
        port: e.port,
        token: copy_opt(&e.token),
    }
}

fn copy_entries(v: &Vec<ServerEntry>) -> (r: Vec<ServerEntry>)
    ensures
        entries_view(r@) == entries_view(v@),
{
    let mut r: Vec<ServerEntry> = Vec::new();
    let mut i: usize = 0;
    while i < v.len()
        invariant
            i <= v@.len(),
            r@.len() == i,
            forall|j: int| 0 <= j < i ==> entry_view(#[trigger] r@[j]) == entry_view(v@[j]),
        decreases v@.len() - i,
    {
        r.push(copy_entry(&v[i]));
        i += 1;
    }
    assert(entries_view(r@) =~= entries_view(v@));
    r
}

/// The list without the entries whose id is `id`.
pub open spec fn without_entry(s: Seq<ServerEntry>, id: Seq<char>) -> Seq<ServerEntry>
    decreases s.len(),
{
    if s.len() == 0 {
        seq![]
    } else if s.last().id@ == id {
        without_entry(s.drop_last(), id)
    } else {
        without_entry(s.drop_last(), id).push(s.last())
    }
}

/// What a saved entry dials.
pub open spec fn entry_target(e: ServerEntry) -> (Seq<char>, Option<Seq<char>>, Option<Seq<char>>) {
    (entry_url(e.host@, e.port), opt_view(e.token), Some(e.name@))
}

impl ServersState {
    fn changed(&self) -> (r: ServersEvent)
        ensures
            event_view(r) == EventView::Changed(entries_view(self.servers@), opt_view(self.active)),
    {
        ServersEvent::Changed { servers: copy_entries(&self.servers), active: copy_opt(&self.active) }
    }

    /// Connect to a saved entry, or with `None` back to the local engine.
    /// An id no entry has changes nothing.
    pub fn connect(&mut self, id: Option<&str>) -> (r: Vec<ServersEvent>)
        ensures
            match id {
                Some(i) => match entry_by_id(old(self).servers@, i@) {
                    None => r@.len() == 0 && opt_view(final(self).active) == opt_view(old(self).active),
                    Some(k) => {
                        &&& opt_view(final(self).active) == Some(i@)
                        &&& events_view(r@) == seq![
                            EventView::Changed(entries_view(old(self).servers@), Some(i@)),
                            EventView::Connect(Some(entry_target(old(self).servers@[k]))),
                        ]
                    },
                },
                None => {
                    &&& final(self).active is None
                    &&& events_view(r@) == seq![
                        EventView::Changed(entries_view(old(self).servers@), None),
                        EventView::Connect(None),
                    ]
                },
            },
            entries_view(final(self).servers@) == entries_view(old(self).servers@),
    {
        let target = match id {
            Some(i) => {
                proof {
                    lemma_entry_bounds(self.servers@, i@, seq![]);
                }
                match entry_by_id_exec(self.servers.as_slice(), chars_of(i).as_slice()) {
                    Some(k) => Some(self.servers[k].target()),
                    None => {
                        return Vec::new();
                    },
                }
            },
            None => None,
        };
        self.active = match id {
            Some(i) => Some(owned(i)),
            None => None,
        };
        let mut events: Vec<ServersEvent> = Vec::new();
        events.push(self.changed());
        events.push(ServersEvent::Connect(target));
        assert(events_view(events@) =~= seq![event_view(events@[0]), event_view(events@[1])]);
        events
    }

    /// Remove a saved entry. Removing the chosen one falls back to the local
    /// engine, and says so.
    pub fn remove(&mut self, id: &str) -> (r: Vec<ServersEvent>)
        ensures
            entries_view(final(self).servers@) == entries_view(without_entry(old(self).servers@, id@)),
            opt_view(final(self).active) == if opt_view(old(self).active) == Some(id@) {
                None
            } else {
                opt_view(old(self).active)
            },
            events_view(r@) == seq![
                EventView::Changed(entries_view(final(self).servers@), opt_view(final(self).active)),
            ] + if opt_view(old(self).active) == Some(id@) {
                seq![EventView::Connect(None)]
            } else {
                Seq::<EventView>::empty()
            },
    {
        let key = chars_of(id);
        let mut kept: Vec<ServerEntry> = Vec::new();
        let mut i: usize = 0;
        assert(self.servers@.take(0) == Seq::<ServerEntry>::empty());
        while i < self.servers.len()
            invariant
                i <= self.servers@.len(),
                key@ == id@,
                entries_view(kept@) == entries_view(without_entry(self.servers@.take(i as int), id@)),
            decreases self.servers@.len() - i,
        {
            assert(self.servers@.take(i + 1).drop_last() == self.servers@.take(i as int));
            assert(self.servers@.take(i + 1).last() == self.servers@[i as int]);
            if !chars_eq(chars_of(self.servers[i].id.as_str()).as_slice(), key.as_slice()) {
                let ghost before = kept@;
                kept.push(copy_entry(&self.servers[i]));
                assert(entries_view(kept@) =~= entries_view(before).push(entry_view(self.servers@[i as int])));
                assert(entries_view(without_entry(self.servers@.take(i + 1), id@)) =~= entries_view(
                    without_entry(self.servers@.take(i as int), id@),
                ).push(entry_view(self.servers@[i as int])));
            }
            i += 1;
        }
        assert(self.servers@.take(self.servers@.len() as int) == self.servers@);
        self.servers = kept;
        let was_active = match &self.active {
            Some(a) => chars_eq(chars_of(a.as_str()).as_slice(), key.as_slice()),
            None => false,
        };
        if was_active {
            self.active = None;
        }
        let mut events: Vec<ServersEvent> = Vec::new();
        events.push(self.changed());
        if was_active {
            events.push(ServersEvent::Connect(None));
            assert(events_view(events@) =~= seq![event_view(events@[0]), EventView::Connect(None)]);
        } else {
            assert(events_view(events@) =~= seq![event_view(events@[0])]);
        }
        events
    }

    /// The Add dialog's fields submitted: the entry joins the list, or the
    /// words that refuse the fields come back for the dialog to show.
    pub fn submit_add(&mut self, name: &str, host: &str, port: &str, token: &str) -> (r: Result<
        Vec<ServersEvent>,
        String,
    >)
        ensures
            match parse_server_spec(name@, host@, port@, token@) {
                Err(m) => (r matches Err(rm) && rm@ == m) && entries_view(final(self).servers@)
                    == entries_view(old(self).servers@),
                Ok((n, h, p, t)) => {
                    &&& final(self).servers@.len() == old(self).servers@.len() + 1
                    &&& entries_view(final(self).servers@.drop_last()) == entries_view(
                        old(self).servers@,
                    )
                    &&& final(self).servers@.last().name@ == n
                    &&& final(self).servers@.last().host@ == h
                    &&& final(self).servers@.last().port == p
                    &&& opt_view(final(self).servers@.last().token) == t
                    &&& is_uuid_v4_text(final(self).servers@.last().id@)
                    &&& r matches Ok(events) && events_view(events@) == seq![
                        EventView::Changed(entries_view(final(self).servers@), opt_view(final(self).active)),
                    ]
                },
            },
            opt_view(final(self).active) == opt_view(old(self).active),
    {
        match parse_server(name, host, port, token) {
            Ok(entry) => {
                let ghost before = self.servers@;
                self.servers.push(entry);
                assert(self.servers@.drop_last() == before);
                let mut events: Vec<ServersEvent> = Vec::new();
                events.push(self.changed());
                assert(events_view(events@) =~= seq![event_view(events@[0])]);
                Ok(events)
            },
            Err(message) => Err(message),
        }
    }

    /// Keep the engine that came from the command line: an entry already at
    /// its address is chosen, not added; otherwise a new entry for that
    /// engine joins the list and is chosen. A target that would not save
    /// back to the same engine (a path, another scheme) is refused, and the
    /// refusal comes back to be logged.
    pub fn save_command_line(&mut self, target: &RemoteEngineTarget) -> (r: Result<
        Vec<ServersEvent>,
        String,
    >)
        ensures
            match entry_at(old(self).servers@, canonical_spec(target.url@)) {
                Some(k) => {
                    &&& opt_view(final(self).active) == Some(old(self).servers@[k].id@)
                    &&& entries_view(final(self).servers@) == entries_view(old(self).servers@)
                    &&& r matches Ok(events) && events_view(events@) == seq![
                        EventView::Changed(entries_view(final(self).servers@), opt_view(final(self).active)),
                    ]
                },
                None => match parse_server_spec(
                    field_text(target.name),
                    target.url@,
                    seq![],
                    field_text(target.token),
                ) {
                    Err(m) => (r matches Err(rm) && rm@ == m) && entries_view(final(self).servers@)
                        == entries_view(old(self).servers@) && opt_view(final(self).active) == opt_view(
                        old(self).active,
                    ),
                    Ok((n, h, p, t)) => if engine_address(entry_url(h, p)) != engine_address(target.url@) {
                        (r matches Err(rm) && rm@ == refused_message(
                            canonical_spec(target.url@),
                            canonical_spec(entry_url(h, p)),
                        )) && entries_view(final(self).servers@) == entries_view(old(self).servers@)
                            && opt_view(final(self).active) == opt_view(old(self).active)
                    } else {
                        &&& final(self).servers@.len() == old(self).servers@.len() + 1
                        &&& entries_view(final(self).servers@.drop_last()) == entries_view(
                            old(self).servers@,
                        )
                        &&& final(self).servers@.last().name@ == n
                        &&& final(self).servers@.last().host@ == h
                        &&& final(self).servers@.last().port == p
                        &&& opt_view(final(self).servers@.last().token) == t
                        &&& opt_view(final(self).active) == Some(final(self).servers@.last().id@)
                        &&& r matches Ok(events) && events_view(events@) == seq![
                            EventView::Changed(entries_view(final(self).servers@), opt_view(final(self).active)),
                        ]
                    },
                },
            },
    {
        let wanted = canonical_chars(chars_of(target.url.as_str()).as_slice());
        proof {
            lemma_entry_bounds(self.servers@, seq![], wanted@);
        }
        match entry_at_exec(self.servers.as_slice(), wanted.as_slice()) {
            Some(k) => {
                self.active = Some(owned(self.servers[k].id.as_str()));
                let mut events: Vec<ServersEvent> = Vec::new();
                events.push(self.changed());
                assert(events_view(events@) =~= seq![event_view(events@[0])]);
                return Ok(events);
            },
            None => {},
        }
        match entry_for_target(target) {
            Ok(entry) => {
                let ghost before = self.servers@;
                self.active = Some(owned(entry.id.as_str()));
                self.servers.push(entry);
                assert(self.servers@.drop_last() == before);
                let mut events: Vec<ServersEvent> = Vec::new();
                events.push(self.changed());
                assert(events_view(events@) =~= seq![event_view(events@[0])]);
                Ok(events)
            },
            Err(message) => Err(message),
        }
    }
}

/// What sits at the right edge of a row.
#[derive(Debug, Clone, PartialEq, Eq)]
pub enum RowTail {
    /// Not the engine in use: Connect dials the saved id (`None`: local).
    Connect(Option<String>),
    /// The engine in use.
    Active,
    /// The engine in use, known only from the command line: Active plus Save.
    ActiveUnsaved,
}

/// One row of the page: its title, its meta line's parts, the saved entry
/// its Remove button drops, and its tail.
#[derive(Debug, Clone, PartialEq, Eq)]
pub struct ServerRow {
    pub title: String,
    pub meta: Vec<String>,
    pub remove_id: Option<String>,
    pub tail: RowTail,
}

pub enum TailView {
    Connect(Option<Seq<char>>),
    Active,
    ActiveUnsaved,
}

/// A row, by its values.
pub struct RowView {
    pub title: Seq<char>,
    pub meta: Seq<Seq<char>>,
    pub remove_id: Option<Seq<char>>,
    pub tail: TailView,
}

pub open spec fn tail_view(t: RowTail) -> TailView {
    match t {
        RowTail::Connect(id) => TailView::Connect(opt_view(id)),
        RowTail::Active => TailView::Active,
        RowTail::ActiveUnsaved => TailView::ActiveUnsaved,
    }
}

pub open spec fn row_view(r: ServerRow) -> RowView {
    RowView {
        title: r.title@,
        meta: crate::text::strs_view(r.meta@),
        remove_id: opt_view(r.remove_id),
        tail: tail_view(r.tail),
    }
}

pub open spec fn rows_view(v: Seq<ServerRow>) -> Seq<RowView> {
    v.map_values(|r: ServerRow| row_view(r))
}

/// The row of a saved entry: its name; where it is and whether it has a
/// token; Remove; Active when it is the engine in use, else Connect.
pub open spec fn saved_row(e: ServerEntry, active: ActiveRow) -> RowView {
    RowView {
        title: e.name@,
        meta: seq![
            e.host@ + ":"@ + decimal(e.port as nat),
            if e.token is Some {
                "token set"@
            } else {
                "no token"@
            },
        ],
        remove_id: Some(e.id@),
        tail: if active matches ActiveRow::Saved(id) && id@ == e.id@ {
            TailView::Active
        } else {
            TailView::Connect(Some(e.id@))
        },
    }
}

/// The page's rows: this computer first, then every saved entry in order,
/// then, when the engine in use came from the command line, a row for it
/// with a Save.
pub open spec fn rows_spec(servers: Seq<ServerEntry>, active: ActiveRow) -> Seq<RowView> {
    seq![
        RowView {
            title: "This computer"@,
            meta: seq!["Engine started by this app, or a daemon on the local port"@],
            remove_id: None,
            tail: if active is Local {
                TailView::Active
            } else {
                TailView::Connect(None)
            },
        },
    ] + servers.map_values(|e: ServerEntry| saved_row(e, active)) + match active {
        ActiveRow::CommandLine(url) => seq![
            RowView {
                title: "Command line"@,
                meta: seq![url@, "from --engine or SURYA_ENGINE; Save keeps it"@],
                remove_id: None,
                tail: TailView::ActiveUnsaved,
            },
        ],
        _ => Seq::<RowView>::empty(),
    }
}

fn push_row(v: &mut Vec<ServerRow>, r: ServerRow)
    ensures
        rows_view(final(v)@) == rows_view(old(v)@).push(row_view(r)),
{
    let ghost o = v@;
    v.push(r);
    assert(rows_view(v@) =~= rows_view(o).push(row_view(r)));
}

fn two(a: String, b: String) -> (r: Vec<String>)
    ensures
        crate::text::strs_view(r@) == seq![a@, b@],
{
    let mut v: Vec<String> = Vec::new();
    v.push(a);
    v.push(b);
    assert(crate::text::strs_view(v@) =~= seq![a@, b@]);
    v
}

impl ServersState {
    /// The rows the page draws, with `active` the row that is in use.
    pub fn rows(&self, active: &ActiveRow) -> (r: Vec<ServerRow>)
        ensures
            rows_view(r@) == rows_spec(self.servers@, *active),
    {
        let mut rows: Vec<ServerRow> = Vec::new();
        let local = match active {
            ActiveRow::Local => true,
            _ => false,
        };
        let mut meta0: Vec<String> = Vec::new();
        meta0.push(owned("Engine started by this app, or a daemon on the local port"));
        assert(crate::text::strs_view(meta0@) =~= seq!["Engine started by this app, or a daemon on the local port"@]);
        push_row(
            &mut rows,
            ServerRow {
                title: owned("This computer"),
                meta: meta0,
                remove_id: None,
                tail: if local {
                    RowTail::Active
                } else {
                    RowTail::Connect(None)
                },
            },
        );
        let ghost head = rows_view(rows@);
        let mut i: usize = 0;
        while i < self.servers.len()
            invariant
                i <= self.servers@.len(),
                rows_view(rows@) == head + self.servers@.take(i as int).map_values(
                    |e: ServerEntry| saved_row(e, *active),
                ),
            decreases self.servers@.len() - i,
        {
            let e = &self.servers[i];
            let mut place = chars_of(e.host.as_str());
            append(&mut place, chars_of(":").as_slice());
            append(&mut place, decimal_chars(e.port as u64).as_slice());
            let token_words = match &e.token {
                Some(_) => owned("token set"),
                None => owned("no token"),
            };
            let is_active = match active {
                ActiveRow::Saved(id) => chars_eq(chars_of(id.as_str()).as_slice(), chars_of(e.id.as_str()).as_slice()),
                _ => false,
            };
            let row = ServerRow {
                title: owned(e.name.as_str()),
                meta: two(string_of(place.as_slice()), token_words),
                remove_id: Some(owned(e.id.as_str())),
                tail: if is_active {
                    RowTail::Active
                } else {
                    RowTail::Connect(Some(owned(e.id.as_str())))
                },
            };
            push_row(&mut rows, row);
            proof {
                assert(self.servers@.take(i + 1) == self.servers@.take(i as int).push(*e));
                assert(self.servers@.take(i + 1).map_values(|e: ServerEntry| saved_row(e, *active))
                    =~= self.servers@.take(i as int).map_values(|e: ServerEntry| saved_row(e, *active)).push(
                    saved_row(*e, *active),
                ));
            }
            i += 1;
        }
        assert(self.servers@.take(self.servers@.len() as int) == self.servers@);
        match active {
            ActiveRow::CommandLine(url) => {
                push_row(
                    &mut rows,
                    ServerRow {
                        title: owned("Command line"),
                        meta: two(owned(url.as_str()), owned("from --engine or SURYA_ENGINE; Save keeps it")),
                        remove_id: None,
                        tail: RowTail::ActiveUnsaved,
                    },
                );
            },
            _ => {},
        }
        rows
    }
}

/// The row carries the Active badge.
pub open spec fn is_active_tail(t: TailView) -> bool {
    t is Active || t is ActiveUnsaved
}

/// Exactly one row carries the Active badge: this computer, the saved entry
/// in use, or the command line's row, as long as saved ids are distinct and
/// a saved row in use is one of the list's.
pub proof fn law_exactly_one_active_row(servers: Seq<ServerEntry>, active: ActiveRow)
    requires
        forall|i: int, j: int| 0 <= i < j < servers.len() ==> servers[i].id@ != servers[j].id@,
        active matches ActiveRow::Saved(id) ==> exists|k: int| 0 <= k < servers.len() && servers[k].id@ == id@,
    ensures
        exists|i: int| 0 <= i < rows_spec(servers, active).len() && is_active_tail(#[trigger] rows_spec(servers, active)[i].tail),
        forall|i: int, j: int|
            0 <= i < rows_spec(servers, active).len() && 0 <= j < rows_spec(servers, active).len()
                && is_active_tail(#[trigger] rows_spec(servers, active)[i].tail) && is_active_tail(
                #[trigger] rows_spec(servers, active)[j].tail,
            ) ==> i == j,
{
    let rows = rows_spec(servers, active);
    let n = servers.len() as int;
    let saved = servers.map_values(|e: ServerEntry| saved_row(e, active));
    assert forall|i: int| 1 <= i <= n implies #[trigger] rows[i] == saved_row(servers[i - 1], active) by {
        assert(rows[i] == saved[i - 1]);
    }
    assert forall|i: int| 0 <= i < rows.len() && is_active_tail(#[trigger] rows[i].tail) implies match active {
        ActiveRow::Local => i == 0,
        ActiveRow::Saved(id) => 1 <= i <= n && servers[i - 1].id@ == id@,
        ActiveRow::CommandLine(_) => i == n + 1,
    } by {
        if 1 <= i <= n {
            assert(rows[i] == saved_row(servers[i - 1], active));
        }
    }
    match active {
        ActiveRow::Local => {
            assert(is_active_tail(rows[0].tail));
        },
        ActiveRow::Saved(id) => {
            let k = choose|k: int| 0 <= k < servers.len() && servers[k].id@ == id@;
            assert(rows[k + 1] == saved_row(servers[k], active));
            assert(is_active_tail(rows[k + 1].tail));
        },
        ActiveRow::CommandLine(_) => {
            assert(is_active_tail(rows[n + 1].tail));
        },
    }
}


/// Every saved entry has its own row after the first, in order: titled by
/// its name, its first meta line where it is, and its second saying
/// whether it has a token: "token set" when it has one, "no token" when
/// not.
pub proof fn law_saved_rows_say_whether_a_token_is_set(servers: Seq<ServerEntry>, active: ActiveRow, k: int)
    requires
        0 <= k < servers.len(),
    ensures
        rows_spec(servers, active)[k + 1].title == servers[k].name@,
        rows_spec(servers, active)[k + 1].meta.len() == 2,
        rows_spec(servers, active)[k + 1].meta[0] == servers[k].host@ + ":"@ + decimal(servers[k].port as nat),
        servers[k].token is Some ==> rows_spec(servers, active)[k + 1].meta[1] == "token set"@,
        servers[k].token is None ==> rows_spec(servers, active)[k + 1].meta[1] == "no token"@,
        rows_spec(servers, active)[k + 1].remove_id == Some(servers[k].id@),
{
    let first = seq![
        RowView {
            title: "This computer"@,
            meta: seq!["Engine started by this app, or a daemon on the local port"@],
            remove_id: None,
            tail: if active is Local {
                TailView::Active
            } else {
                TailView::Connect(None)
            },
        },
    ];
    let saved = servers.map_values(|e: ServerEntry| saved_row(e, active));
    assert(rows_spec(servers, active)[k + 1] == (first + saved)[k + 1]);
    assert((first + saved)[k + 1] == saved[k]);
}

} // verus!
