//! The notification ledger: what a notification is, the rows it is kept in,
//! the cache that holds back repeated events, and the ledger's operations.

use vstd::prelude::*;
use crate::error::{Error, ErrorKind};
use crate::json::{json_check, json_fault};
use crate::package::{id_view, PackageId};
use crate::text::{copy_text, join, text_equal, text_view};

verus! {

/// How many notifications `list` gives when no limit is asked for.
pub const DEFAULT_LIST_LIMIT: u32 = 40;

/// How much a notification matters.
#[derive(Debug, Clone, Copy, PartialEq, Eq, Hash, Structural)]
pub enum NotificationLevel {
    Success,
    Info,
    Warning,
    Error,
}

/// The text of a level, as it is kept in a row.
pub open spec fn level_text(level: NotificationLevel) -> Seq<char> {
    match level {
        NotificationLevel::Success => "success"@,
        NotificationLevel::Info => "info"@,
        NotificationLevel::Warning => "warning"@,
        NotificationLevel::Error => "error"@,
    }
}

/// The level that a text names; `None` for a text that names none.
pub open spec fn parse_level(text: Seq<char>) -> Option<NotificationLevel> {
    if text == "success"@ {
        Some(NotificationLevel::Success)
    } else if text == "info"@ {
        Some(NotificationLevel::Info)
    } else if text == "warning"@ {
        Some(NotificationLevel::Warning)
    } else if text == "error"@ {
        Some(NotificationLevel::Error)
    } else {
        None
    }
}

/// A text that names no level.
#[derive(Debug)]
pub struct InvalidNotificationLevel(pub String);

impl InvalidNotificationLevel {
    /// What to tell the operator.
    pub fn to_string(&self) -> (text: String)
        ensures
            text@ == "Invalid Notification Level: "@ + self.0@,
    {
        join("Invalid Notification Level: ", self.0.as_str())
    }

    /// The error that a row with such a level gives.
    pub fn into_error(self) -> (e: Error)
        ensures
            e.kind == ErrorKind::ParseDbField,
            e.message@ == "Invalid Notification Level: "@ + self.0@,
    {
        Error::new(ErrorKind::ParseDbField, self.to_string())
    }
}

impl NotificationLevel {
    /// The level's text.
    pub fn to_string(&self) -> (text: String)
        ensures
            text@ == level_text(*self),
    {
        match self {
            NotificationLevel::Success => "success".to_owned(),
            NotificationLevel::Info => "info".to_owned(),
            NotificationLevel::Warning => "warning".to_owned(),
            NotificationLevel::Error => "error".to_owned(),
        }
    }

    /// Reads a level's text.
    pub fn from_str(s: &str) -> (r: Result<NotificationLevel, InvalidNotificationLevel>)
        ensures
            match parse_level(s@) {
                Some(level) => r == Ok::<NotificationLevel, InvalidNotificationLevel>(level),
                None => r matches Err(e) && e.0@ == s@,
            },
    {
        if text_equal(s, "success") {
            Ok(NotificationLevel::Success)
        } else if text_equal(s, "info") {
            Ok(NotificationLevel::Info)
        } else if text_equal(s, "warning") {
            Ok(NotificationLevel::Warning)
        } else if text_equal(s, "error") {
            Ok(NotificationLevel::Error)
        } else {
            Err(InvalidNotificationLevel(s.to_owned()))
        }
    }
}

/// Reading a level's text gives the level.
pub proof fn lemma_level_round_trip(level: NotificationLevel)
    ensures
        parse_level(level_text(level)) == Some(level),
{
    reveal_strlit("success");
    reveal_strlit("info");
    reveal_strlit("warning");
    reveal_strlit("error");
    assert("success"@.len() == 7);
    assert("info"@.len() == 4);
    assert("warning"@.len() == 7);
    assert("error"@.len() == 5);
    assert("warning"@[0] == 'w');
    assert("success"@[0] == 's');
}

/// A kind of payload that a notification can carry. The code tells a reader of
/// the ledger which kind a row's data is.
pub trait NotificationType {
    /// The code of this kind of payload.
    spec fn code_spec() -> i32;

    fn code() -> (c: i32)
        ensures
            c == Self::code_spec(),
    ;
}

impl NotificationType for () {
    open spec fn code_spec() -> i32 {
        0
    }

    fn code() -> (c: i32) {
        0
    }
}


/// A notification as the ledger keeps it.
#[derive(Debug)]
pub struct NotificationRow {
    pub id: i32,
    pub package_id: Option<String>,
    /// Seconds since the Unix epoch.
    pub created_at: i64,
    pub code: i32,
    pub level: String,
    pub title: String,
    pub message: String,
    /// The payload as JSON text.
    pub data: Option<String>,
}

/// A row as plain values.
pub struct RowView {
    pub id: i32,
    pub package_id: Option<Seq<char>>,
    pub created_at: i64,
    pub code: i32,
    pub level: Seq<char>,
    pub title: Seq<char>,
    pub message: Seq<char>,
    pub data: Option<Seq<char>>,
}

impl View for NotificationRow {
    type V = RowView;

    open spec fn view(&self) -> RowView {
        RowView {
            id: self.id,
            package_id: text_view(self.package_id),
            created_at: self.created_at,
            code: self.code,
            level: self.level@,
            title: self.title@,
            message: self.message@,
            data: text_view(self.data),
        }
    }
}

/// A notification as a reader of the ledger gets it.
#[derive(Debug)]
pub struct Notification {
    pub id: u32,
    pub package_id: Option<PackageId>,
    /// Seconds since the Unix epoch.
    pub created_at: i64,
    pub code: u32,
    pub level: NotificationLevel,
    pub title: String,
    pub message: String,
    /// The payload as JSON text; `None` stands for JSON's `null`.
    pub data: Option<String>,
}

/// A notification as plain values.
pub struct NotificationView {
    pub id: u32,
    pub package_id: Option<Seq<char>>,
    pub created_at: i64,
    pub code: u32,
    pub level: NotificationLevel,
    pub title: Seq<char>,
    pub message: Seq<char>,
    pub data: Option<Seq<char>>,
}

impl View for Notification {
    type V = NotificationView;

    open spec fn view(&self) -> NotificationView {
        NotificationView {
            id: self.id,
            package_id: id_view(self.package_id),
            created_at: self.created_at,
            code: self.code,
            level: self.level,
            title: self.title@,
            message: self.message@,
            data: text_view(self.data),
        }
    }
}

/// A signed number of a row as the unsigned number of a notification: the
/// same bits.
pub open spec fn as_unsigned(n: i32) -> u32 {
    if n >= 0 {
        n as u32
    } else {
        (n + 0x1_0000_0000) as u32
    }
}

/// What reading a row gives: the notification, or what is wrong with the row.
/// The level is looked at first, then the data.
pub open spec fn row_notification(row: RowView) -> Result<NotificationView, Seq<char>> {
    match parse_level(row.level) {
        None => Err("Invalid Notification Level: "@ + row.level),
        Some(level) => {
            if row.data.is_some() && json_fault(row.data.unwrap()).is_some() {
                Err("Invalid Notification Data: "@ + json_fault(row.data.unwrap()).unwrap())
            } else {
                Ok(
                    NotificationView {
                        id: as_unsigned(row.id),
                        package_id: row.package_id,
                        created_at: row.created_at,
                        code: as_unsigned(row.code),
                        level,
                        title: row.title,
                        message: row.message,
                        data: row.data,
                    },
                )
            }
        },
    }
}

fn to_unsigned(n: i32) -> (u: u32)
    ensures
        u == as_unsigned(n),
{
    if n >= 0 {
        n as u32
    } else {
        (n as i64 + 0x1_0000_0000i64) as u32
    }
}

impl Notification {
    /// Reads a row. A level that is none of the four, or data that is not
    /// JSON, gives an error of the kind `ParseDbField`.
    pub fn from_row(row: &NotificationRow) -> (r: Result<Notification, Error>)
        ensures
            match row_notification(row@) {
                Ok(n) => r matches Ok(notification) && notification@ == n,
                Err(message) => r matches Err(e) && e.kind == ErrorKind::ParseDbField && e.message@
                    == message,
            },
    {
        let level = match NotificationLevel::from_str(row.level.as_str()) {
            Ok(level) => level,
            Err(invalid) => { return Err(invalid.into_error()); },
        };
        match &row.data {
            Some(data) => {
                match json_check(data.as_str()) {
                    Some(fault) => {
                        return Err(
                            Error::new(
                                ErrorKind::ParseDbField,
                                join("Invalid Notification Data: ", fault.as_str()),
                            ),
                        );
                    },
                    None => {},
                }
            },
            None => {},
        }
        let package_id = match &row.package_id {
            Some(id) => Some(PackageId::new(id.clone())),
            None => None,
        };
        Ok(
            Notification {
                id: to_unsigned(row.id),
                package_id,
                created_at: row.created_at,
                code: to_unsigned(row.code),
                level,
                title: row.title.clone(),
                message: row.message.clone(),
                data: copy_text(&row.data),
            },
        )
    }
}


/// The ledger as plain values: its rows in the order they were put in, the
/// identifier that the next row gets, and the count of unread notifications.
pub struct LedgerView {
    pub rows: Seq<RowView>,
    pub next_id: int,
    pub unread: int,
}

/// The rows with an identifier below `before`.
pub open spec fn below(before: i32) -> spec_fn(RowView) -> bool {
    |row: RowView| row.id < before
}

/// The rows with an identifier of at least `before`.
pub open spec fn not_below(before: i32) -> spec_fn(RowView) -> bool {
    |row: RowView| row.id >= before
}

/// The rows with another identifier than `id`.
pub open spec fn other_than(id: i32) -> spec_fn(RowView) -> bool {
    |row: RowView| row.id != id
}

/// The identifiers rise from row to row.
pub open spec fn ids_rise(rows: Seq<RowView>) -> bool {
    forall|i: int, j: int| 0 <= i < j < rows.len() ==> rows[i].id < rows[j].id
}

impl LedgerView {
    /// The identifiers rise in the order of insertion, and lie between one
    /// and the identifier that comes next.
    pub open spec fn wf(self) -> bool {
        &&& 1 <= self.next_id <= i32::MAX
        &&& 0 <= self.unread <= u64::MAX
        &&& ids_rise(self.rows)
        &&& forall|i: int| 0 <= i < self.rows.len() ==> 1 <= (#[trigger] self.rows[i]).id < self.next_id
    }

    /// There is an identifier left for one more row, and the count of unread
    /// notifications can grow by one.
    pub open spec fn has_room(self) -> bool {
        self.next_id < i32::MAX && self.unread < u64::MAX
    }

    /// The ledger with one more row, which gets the next identifier, and one
    /// more unread notification.
    pub open spec fn insert(
        self,
        package_id: Option<Seq<char>>,
        code: i32,
        level: NotificationLevel,
        title: Seq<char>,
        message: Seq<char>,
        data: Seq<char>,
        now: i64,
    ) -> LedgerView {
        LedgerView {
            rows: self.rows.push(
                RowView {
                    id: self.next_id as i32,
                    package_id,
                    created_at: now,
                    code,
                    level: level_text(level),
                    title,
                    message,
                    data: Some(data),
                },
            ),
            next_id: self.next_id + 1,
            unread: self.unread + 1,
        }
    }

    /// The rows that `list` may give: all, or those below `before`.
    pub open spec fn eligible(self, before: Option<i32>) -> Seq<RowView> {
        match before {
            Some(b) => self.rows.filter(below(b)),
            None => self.rows,
        }
    }

    /// The rows that `list` gives: the last `limit` of the eligible ones, the
    /// newest first.
    pub open spec fn listed(self, before: Option<i32>, limit: int) -> Seq<RowView> {
        let eligible = self.eligible(before);
        let count = if limit < eligible.len() {
            limit
        } else {
            eligible.len() as int
        };
        Seq::new(count as nat, |j: int| eligible[eligible.len() - 1 - j])
    }

    /// The ledger after a successful `list`: a list of the latest
    /// notifications marks all as read.
    pub open spec fn after_list(self, before: Option<i32>) -> LedgerView {
        match before {
            Some(_) => self,
            None => LedgerView { unread: 0, ..self },
        }
    }

    /// The ledger without the row `id`.
    pub open spec fn delete(self, id: i32) -> LedgerView {
        LedgerView { rows: self.rows.filter(other_than(id)), ..self }
    }

    /// The ledger without the rows below `before`.
    pub open spec fn delete_before(self, before: i32) -> LedgerView {
        LedgerView { rows: self.rows.filter(not_below(before)), ..self }
    }
}

/// Whether every one of these rows can be read.
pub open spec fn all_readable(rows: Seq<RowView>) -> bool {
    forall|j: int| 0 <= j < rows.len() ==> row_notification(#[trigger] rows[j]).is_ok()
}

/// Where the first row lies that cannot be read; the number of rows where
/// every row can.
pub open spec fn first_unreadable(rows: Seq<RowView>) -> int
    decreases rows.len(),
{
    if rows.len() == 0 {
        0
    } else if !row_notification(rows[0]).is_ok() {
        0
    } else {
        1 + first_unreadable(rows.drop_first())
    }
}

/// What makes a list fail: the fault of the first row that cannot be read.
pub open spec fn list_fault(rows: Seq<RowView>) -> Seq<char> {
    row_notification(rows[first_unreadable(rows)])->Err_0
}

/// The notifications that a run of readable rows gives.
pub open spec fn notifications_of(rows: Seq<RowView>) -> Seq<NotificationView> {
    Seq::new(rows.len(), |j: int| row_notification(rows[j])->Ok_0)
}

/// The notifications as plain values.
pub open spec fn notification_views(list: Seq<Notification>) -> Seq<NotificationView> {
    Seq::new(list.len(), |j: int| list[j]@)
}

/// The rows as plain values.
pub open spec fn row_views(rows: Seq<NotificationRow>) -> Seq<RowView> {
    Seq::new(rows.len(), |i: int| rows[i]@)
}

/// A filter keeps a sequence whole where every element passes.
pub proof fn lemma_filter_keeps_all<A>(s: Seq<A>, pred: spec_fn(A) -> bool)
    requires
        forall|i: int| 0 <= i < s.len() ==> pred(#[trigger] s[i]),
    ensures
        s.filter(pred) == s,
    decreases s.len(),
{
    reveal(Seq::filter);
    if s.len() > 0 {
        let init = s.drop_last();
        assert forall|i: int| 0 <= i < init.len() implies pred(#[trigger] init[i]) by {
            assert(init[i] == s[i]);
        }
        lemma_filter_keeps_all(init, pred);
        assert(init.push(s.last()) =~= s);
    }
}

/// A filter leaves nothing where no element passes.
pub proof fn lemma_filter_drops_all<A>(s: Seq<A>, pred: spec_fn(A) -> bool)
    requires
        forall|i: int| 0 <= i < s.len() ==> !pred(#[trigger] s[i]),
    ensures
        s.filter(pred) == Seq::<A>::empty(),
    decreases s.len(),
{
    reveal(Seq::filter);
    if s.len() > 0 {
        let init = s.drop_last();
        assert forall|i: int| 0 <= i < init.len() implies !pred(#[trigger] init[i]) by {
            assert(init[i] == s[i]);
        }
        lemma_filter_drops_all(init, pred);
    }
}

/// Where the elements that pass are the first `k`, or all but the first `k`,
/// a filter gives that part.
pub proof fn lemma_filter_split<A>(s: Seq<A>, pred: spec_fn(A) -> bool, k: int, front: bool)
    requires
        0 <= k <= s.len(),
        forall|i: int| 0 <= i < k ==> pred(#[trigger] s[i]) == front,
        forall|i: int| k <= i < s.len() ==> pred(#[trigger] s[i]) != front,
    ensures
        s.filter(pred) == if front {
            s.subrange(0, k)
        } else {
            s.subrange(k, s.len() as int)
        },
{
    let head = s.subrange(0, k);
    let tail = s.subrange(k, s.len() as int);
    assert(s =~= head + tail);
    Seq::filter_distributes_over_add(head, tail, pred);
    if front {
        lemma_filter_keeps_all(head, pred);
        lemma_filter_drops_all(tail, pred);
        assert(head + Seq::<A>::empty() =~= head);
    } else {
        lemma_filter_drops_all(head, pred);
        lemma_filter_keeps_all(tail, pred);
        assert(Seq::<A>::empty() + tail =~= tail);
    }
}

/// In a ledger whose identifiers rise, the rows below `before` are the first
/// rows: the number that this gives.
pub proof fn lemma_eligible_is_front(rows: Seq<RowView>, before: i32) -> (k: int)
    requires
        ids_rise(rows),
    ensures
        0 <= k <= rows.len(),
        rows.filter(below(before)) == rows.subrange(0, k),
        forall|i: int| 0 <= i < k ==> (#[trigger] rows[i]).id < before,
        forall|i: int| k <= i < rows.len() ==> (#[trigger] rows[i]).id >= before,
    decreases rows.len(),
{
    let k = if rows.len() == 0 {
        0
    } else if rows.last().id < before {
        rows.len() as int
    } else {
        let init = rows.drop_last();
        assert forall|i: int, j: int| 0 <= i < j < init.len() implies init[i].id < init[j].id by {
            assert(init[i] == rows[i]);
            assert(init[j] == rows[j]);
        }
        let k = lemma_eligible_is_front(init, before);
        assert forall|i: int| 0 <= i < k implies (#[trigger] rows[i]).id < before by {
            assert(rows[i] == init[i]);
        }
        assert forall|i: int| k <= i < rows.len() implies (#[trigger] rows[i]).id >= before by {
            if i < init.len() {
                assert(rows[i] == init[i]);
            }
        }
        k
    };
    lemma_filter_split(rows, below(before), k, true);
    k
}

/// What `list` gives is what was asked for: at most `limit` rows, each a row
/// of the ledger and below `before`, the identifiers falling from row to
/// row; and they are the latest such rows, for every row of the ledger that
/// is below `before` and not listed has a lower identifier than every row
/// that is.
pub proof fn lemma_listed_descends(ledger: LedgerView, before: Option<i32>, limit: int)
    requires
        ledger.wf(),
        0 <= limit,
    ensures
        ({
            let listed = ledger.listed(before, limit);
            &&& listed.len() <= limit
            &&& forall|i: int, j: int| 0 <= i < j < listed.len() ==> listed[i].id > listed[j].id
            &&& forall|i: int|
                0 <= i < listed.len() ==> ledger.rows.contains(#[trigger] listed[i]) && (
                before matches Some(b) ==> listed[i].id < b)
            &&& forall|i: int, j: int|
                0 <= i < ledger.rows.len() && 0 <= j < listed.len() && !listed.contains(
                    ledger.rows[i],
                ) && (before matches Some(b) ==> ledger.rows[i].id < b) ==> (
                #[trigger] ledger.rows[i]).id < (#[trigger] listed[j]).id
        }),
{
    let rows = ledger.rows;
    let k = match before {
        Some(b) => lemma_eligible_is_front(rows, b),
        None => {
            assert(rows.subrange(0, rows.len() as int) =~= rows);
            rows.len() as int
        },
    };
    let eligible = ledger.eligible(before);
    assert(eligible == rows.subrange(0, k));
    let listed = ledger.listed(before, limit);
    assert forall|i: int| 0 <= i < listed.len() implies ledger.rows.contains(#[trigger] listed[i])
        && (before matches Some(b) ==> listed[i].id < b) by {
        assert(listed[i] == rows[k - 1 - i]);
    }
    assert forall|i: int, j: int| 0 <= i < j < listed.len() implies listed[i].id > listed[j].id by {
        assert(listed[i] == rows[k - 1 - i]);
        assert(listed[j] == rows[k - 1 - j]);
    }
    assert forall|i: int, j: int|
        0 <= i < ledger.rows.len() && 0 <= j < listed.len() && !listed.contains(ledger.rows[i]) && (
        before matches Some(b) ==> ledger.rows[i].id < b) implies (#[trigger] ledger.rows[i]).id < (
    #[trigger] listed[j]).id by {
        assert(listed[j] == rows[k - 1 - j]);
        if i >= k - listed.len() {
            assert(i < k);
            assert(listed[k - 1 - i] == rows[i]);
        }
    }
}

/// The ledger: the rows of all notifications and the count of those unread.
pub struct Ledger {
    rows: Vec<NotificationRow>,
    next_id: i32,
    unread: u64,
}

impl View for Ledger {
    type V = LedgerView;

    closed spec fn view(&self) -> LedgerView {
        LedgerView {
            rows: row_views(self.rows@),
            next_id: self.next_id as int,
            unread: self.unread as int,
        }
    }
}

impl Ledger {
    /// An empty ledger with nothing unread.
    pub fn new() -> (ledger: Ledger)
        ensures
            ledger@.wf(),
            ledger@.rows.len() == 0,
            ledger@.next_id == 1,
            ledger@.unread == 0,
    {
        let ledger = Ledger { rows: Vec::new(), next_id: 1, unread: 0 };
        assert(ledger@.rows =~= Seq::empty());
        ledger
    }

    /// A ledger of rows that were kept elsewhere, with the count of those
    /// unread. `None` unless the identifiers start at one or above, rise from
    /// row to row, and leave the last identifier unused.
    pub fn from_rows(rows: Vec<NotificationRow>, unread: u64) -> (r: Option<Ledger>)
        ensures
            match r {
                Some(ledger) => ledger@.wf() && ledger@.rows == row_views(rows@) && ledger@.unread
                    == unread && ledger@.next_id == (if rows@.len() == 0 {
                    1
                } else {
                    rows@.last().id + 1
                }),
                None => !(ids_rise(row_views(rows@)) && forall|i: int|
                    0 <= i < rows@.len() ==> 1 <= (#[trigger] rows@[i]).id < i32::MAX),
            },
    {
        let ghost views = row_views(rows@);
        let mut i: usize = 0;
        let mut last: i32 = 0;
        while i < rows.len()
            invariant
                i <= rows@.len(),
                views == row_views(rows@),
                0 <= last < i32::MAX,
                i == 0 ==> last == 0,
                i > 0 ==> last == views[i - 1].id,
                forall|a: int| 0 <= a < i ==> 1 <= (#[trigger] views[a]).id <= last,
                forall|a: int, b: int| 0 <= a < b < i ==> views[a].id < views[b].id,
            decreases rows@.len() - i,
        {
            let id: i32 = rows[i].id;
            if id <= last || id == i32::MAX {
                proof {
                    assert(views[i as int].id == id);
                    assert(rows@[i as int].id == id);
                    if i > 0 {
                        assert(views[i - 1].id == last);
                    }
                }
                return None;
            }
            last = id;
            i += 1;
        }
        let ledger = Ledger { rows, next_id: last + 1, unread };
        Some(ledger)
    }

    /// The rows, in the order they were put in.
    pub fn rows(&self) -> (rows: &Vec<NotificationRow>)
        ensures
            row_views(rows@) == self@.rows,
    {
        &self.rows
    }

    /// The count of unread notifications.
    pub fn unread_count(&self) -> (count: u64)
        ensures
            count == self@.unread,
    {
        self.unread
    }

    /// How many rows there are.
    pub fn len(&self) -> (n: usize)
        ensures
            n == self@.rows.len(),
    {
        self.rows.len()
    }

    /// Puts a new row in and counts it as unread. The row gets the next
    /// identifier. Where no identifier is left, or the count cannot grow, the
    /// ledger stays as it is and the error is of the kind `Database`.
    pub fn insert(
        &mut self,
        package_id: &Option<PackageId>,
        code: i32,
        level: NotificationLevel,
        title: String,
        message: String,
        data: String,
        now: i64,
    ) -> (r: Result<(), Error>)
        requires
            old(self)@.wf(),
        ensures
            final(self)@.wf(),
            old(self)@.has_room() ==> r.is_ok() && final(self)@ == old(self)@.insert(
                id_view(*package_id),
                code,
                level,
                title@,
                message@,
                data@,
                now,
            ),
            !old(self)@.has_room() ==> final(self)@ == old(self)@ && (r matches Err(e) && e.kind
                == ErrorKind::Database),
    {
        if self.next_id == i32::MAX || self.unread == u64::MAX {
            return Err(
                Error::new(ErrorKind::Database, "the notification ledger is full".to_owned()),
            );
        }
        let row = NotificationRow {
            id: self.next_id,
            package_id: match package_id {
                Some(id) => Some(id.as_str().to_owned()),
                None => None,
            },
            created_at: now,
            code,
            level: level.to_string(),
            title,
            message,
            data: Some(data),
        };
        self.rows.push(row);
        self.next_id = self.next_id + 1;
        self.unread = self.unread + 1;
        proof {
            let target = old(self)@.insert(
                id_view(*package_id),
                code,
                level,
                title@,
                message@,
                data@,
                now,
            );
            assert(self@.rows =~= target.rows);
            assert(forall|i: int|
                0 <= i < old(self)@.rows.len() ==> self@.rows[i] == old(self)@.rows[i]);
        }
        Ok(())
    }

    /// How many rows have an identifier below `before`: they are the first
    /// rows.
    fn count_below(&self, before: i32) -> (k: usize)
        requires
            self@.wf(),
        ensures
            k <= self@.rows.len(),
            forall|i: int| 0 <= i < k ==> (#[trigger] self@.rows[i]).id < before,
            forall|i: int| k <= i < self@.rows.len() ==> (#[trigger] self@.rows[i]).id >= before,
    {
        let mut k: usize = self.rows.len();
        while k > 0 && self.rows[k - 1].id >= before
            invariant
                k <= self.rows@.len(),
                self@.wf(),
                forall|i: int| k <= i < self@.rows.len() ==> (#[trigger] self@.rows[i]).id >= before,
            decreases k,
        {
            k -= 1;
        }
        proof {
            if k > 0 {
                assert(self@.rows[k - 1].id < before);
            }
        }
        k
    }

    /// The latest notifications, the newest first: at most `limit` (40 where
    /// none is given) of those below `before`, or of all. Listing with no
    /// `before` marks every notification as read. Where a row among those
    /// asked for cannot be read, the error is that of the newest such row, of
    /// the kind `ParseDbField`, and the ledger stays as it is.
    pub fn list(&mut self, before: Option<i32>, limit: Option<u32>) -> (r: Result<
        Vec<Notification>,
        Error,
    >)
        requires
            old(self)@.wf(),
        ensures
            final(self)@.wf(),
            ({
                let limit = match limit {
                    Some(n) => n,
                    None => DEFAULT_LIST_LIMIT,
                };
                let listed = old(self)@.listed(before, limit as int);
                if all_readable(listed) {
                    r matches Ok(list) && notification_views(list@) == notifications_of(listed)
                        && final(self)@ == old(self)@.after_list(before)
                } else {
                    r matches Err(e) && e.kind == ErrorKind::ParseDbField && e.message@
                        == list_fault(listed) && final(self)@ == old(self)@
                }
            }),
    {
        let cap: u32 = match limit {
            Some(n) => n,
            None => DEFAULT_LIST_LIMIT,
        };
        let k: usize = match before {
            Some(b) => self.count_below(b),
            None => self.rows.len(),
        };
        let ghost eligible = self@.eligible(before);
        let ghost listed = self@.listed(before, cap as int);
        proof {
            match before {
                Some(b) => {
                    lemma_filter_split(self@.rows, below(b), k as int, true);
                },
                None => {
                    assert(self@.rows.subrange(0, k as int) =~= self@.rows);
                },
            }
            assert(eligible == self@.rows.subrange(0, k as int));
        }
        let count: usize = if (cap as usize) < k {
            cap as usize
        } else {
            k
        };
        let mut list: Vec<Notification> = Vec::new();
        let mut j: usize = 0;
        proof {
            assert(listed.skip(0) =~= listed);
        }
        while j < count
            invariant
                j <= count <= k <= self.rows@.len(),
                *self == *old(self),
                self@.wf(),
                cap == match limit {
                    Some(n) => n,
                    None => DEFAULT_LIST_LIMIT,
                },
                listed == old(self)@.listed(before, cap as int),
                listed.len() == count,
                forall|a: int| 0 <= a < count ==> listed[a] == self.rows@[k - 1 - a]@,
                list@.len() == j,
                first_unreadable(listed) == j + first_unreadable(listed.skip(j as int)),
                forall|a: int| 0 <= a < j ==> row_notification(listed[a]) == Ok::<
                    NotificationView,
                    Seq<char>,
                >((#[trigger] list@[a])@),
            decreases count - j,
        {
            proof {
                let rest = listed.skip(j as int);
                assert(rest[0] == listed[j as int]);
                assert(rest.drop_first() =~= listed.skip(j + 1));
            }
            match Notification::from_row(&self.rows[k - 1 - j]) {
                Err(e) => {
                    assert(!row_notification(listed[j as int]).is_ok());
                    return Err(e);
                },
                Ok(notification) => {
                    list.push(notification);
                },
            }
            j += 1;
        }
        if before.is_none() {
            self.unread = 0;
        }
        proof {
            assert forall|a: int| 0 <= a < listed.len() implies row_notification(
                #[trigger] listed[a],
            ).is_ok() by {
                assert(row_notification(listed[a]) == Ok::<NotificationView, Seq<char>>(list@[a]@));
            }
            assert(notification_views(list@) =~= notifications_of(listed));
            assert(self@.rows == old(self)@.rows);
        }
        Ok(list)
    }

    /// Takes the row `id` out, if there is one. The count of unread
    /// notifications stays.
    pub fn delete(&mut self, id: i32)
        requires
            old(self)@.wf(),
        ensures
            final(self)@.wf(),
            final(self)@ == old(self)@.delete(id),
    {
        let mut i: usize = 0;
        while i < self.rows.len() && self.rows[i].id != id
            invariant
                i <= self.rows@.len(),
                *self == *old(self),
                forall|a: int| 0 <= a < i ==> (#[trigger] self@.rows[a]).id != id,
            decreases self.rows@.len() - i,
        {
            i += 1;
        }
        let ghost rows = self@.rows;
        if i < self.rows.len() {
            proof {
                assert(rows[i as int].id == id);
                let head = rows.subrange(0, i as int);
                let one = rows.subrange(i as int, i + 1);
                let tail = rows.subrange(i + 1, rows.len() as int);
                assert(rows =~= head + one + tail);
                Seq::filter_distributes_over_add(head + one, tail, other_than(id));
                Seq::filter_distributes_over_add(head, one, other_than(id));
                lemma_filter_keeps_all(head, other_than(id));
                lemma_filter_drops_all(one, other_than(id));
                assert forall|a: int| 0 <= a < tail.len() implies other_than(id)(
                    #[trigger] tail[a],
                ) by {
                    assert(tail[a] == rows[i + 1 + a]);
                }
                lemma_filter_keeps_all(tail, other_than(id));
                assert(rows.filter(other_than(id)) =~= rows.remove(i as int));
            }
            self.rows.remove(i);
            proof {
                assert(self@.rows =~= rows.remove(i as int));
                assert forall|a: int, b: int| 0 <= a < b < self@.rows.len() implies self@.rows[a].id
                    < self@.rows[b].id by {
                    let a0 = if a < i { a } else { a + 1 };
                    let b0 = if b < i { b } else { b + 1 };
                    assert(self@.rows[a] == rows[a0]);
                    assert(self@.rows[b] == rows[b0]);
                }
                assert forall|a: int| 0 <= a < self@.rows.len() implies 1 <= (
                #[trigger] self@.rows[a]).id < self@.next_id by {
                    let a0 = if a < i { a } else { a + 1 };
                    assert(self@.rows[a] == rows[a0]);
                }
            }
        } else {
            proof {
                lemma_filter_keeps_all(rows, other_than(id));
            }
        }
    }

    /// Takes out every row below `before`. The count of unread notifications
    /// stays.
    pub fn delete_before(&mut self, before: i32)
        requires
            old(self)@.wf(),
        ensures
            final(self)@.wf(),
            final(self)@ == old(self)@.delete_before(before),
    {
        let k: usize = self.count_below(before);
        let ghost rows = self@.rows;
        proof {
            lemma_filter_split(rows, not_below(before), k as int, false);
        }
        let kept = self.rows.split_off(k);
        self.rows = kept;
        proof {
            assert(self@.rows =~= rows.subrange(k as int, rows.len() as int));
            assert forall|a: int, b: int| 0 <= a < b < self@.rows.len() implies self@.rows[a].id
                < self@.rows[b].id by {
                assert(self@.rows[a] == rows[k + a]);
                assert(self@.rows[b] == rows[k + b]);
            }
            assert forall|a: int| 0 <= a < self@.rows.len() implies 1 <= (
            #[trigger] self@.rows[a]).id < self@.next_id by {
                assert(self@.rows[a] == rows[k + a]);
            }
        }
    }
}


/// What two events must share to count as the same event.
pub struct CacheKey {
    pub package_id: Option<Seq<char>>,
    pub level: NotificationLevel,
    pub title: Seq<char>,
}

/// Whether an event is let through: always where the cache has not seen it or
/// no interval is given, else only where at least the interval has gone by
/// since it was last let through.
pub open spec fn admits(
    cache: Map<CacheKey, i64>,
    key: CacheKey,
    interval: Option<u32>,
    now: i64,
) -> bool {
    match interval {
        Some(seconds) => !cache.contains_key(key) || cache[key] + seconds <= now,
        None => true,
    }
}

/// The cache after an event was looked at: an event that is let through is
/// remembered with the time.
pub open spec fn cache_after(
    cache: Map<CacheKey, i64>,
    key: CacheKey,
    interval: Option<u32>,
    now: i64,
) -> Map<CacheKey, i64> {
    if admits(cache, key, interval, now) {
        cache.insert(key, now)
    } else {
        cache
    }
}

/// One call of `notify`, as plain values.
pub struct Call {
    pub key: CacheKey,
    pub code: i32,
    pub message: Seq<char>,
    pub data: Seq<char>,
    pub interval: Option<u32>,
    pub now: i64,
}

/// How a call of `notify` ends: with a new row, with nothing done because the
/// event was held back, or with an error of the given kind.
pub enum Outcome {
    Inserted,
    Suppressed,
    Failed(ErrorKind),
}

/// How a call ends on this cache and ledger. An event that is held back
/// reaches neither the check of the data nor the ledger.
pub open spec fn outcome_of(cache: Map<CacheKey, i64>, ledger: LedgerView, call: Call) -> Outcome {
    if !admits(cache, call.key, call.interval, call.now) {
        Outcome::Suppressed
    } else if json_fault(call.data).is_some() {
        Outcome::Failed(ErrorKind::Serialization)
    } else if !ledger.has_room() {
        Outcome::Failed(ErrorKind::Database)
    } else {
        Outcome::Inserted
    }
}

/// The ledger after a call: one row more where the call ends with a new row,
/// else the ledger as it was.
pub open spec fn ledger_after(cache: Map<CacheKey, i64>, ledger: LedgerView, call: Call) -> LedgerView {
    if outcome_of(cache, ledger, call) == Outcome::Inserted {
        ledger.insert(
            call.key.package_id,
            call.code,
            call.key.level,
            call.key.title,
            call.message,
            call.data,
            call.now,
        )
    } else {
        ledger
    }
}

/// The cache after a run of calls.
pub open spec fn cache_after_all(
    cache: Map<CacheKey, i64>,
    ledger: LedgerView,
    calls: Seq<Call>,
) -> Map<CacheKey, i64>
    decreases calls.len(),
{
    if calls.len() == 0 {
        cache
    } else {
        let call = calls.last();
        cache_after(
            cache_after_all(cache, ledger, calls.drop_last()),
            call.key,
            call.interval,
            call.now,
        )
    }
}

/// The ledger after a run of calls.
pub open spec fn ledger_after_all(
    cache: Map<CacheKey, i64>,
    ledger: LedgerView,
    calls: Seq<Call>,
) -> LedgerView
    decreases calls.len(),
{
    if calls.len() == 0 {
        ledger
    } else {
        ledger_after(
            cache_after_all(cache, ledger, calls.drop_last()),
            ledger_after_all(cache, ledger, calls.drop_last()),
            calls.last(),
        )
    }
}

/// How many calls of a run end with a new row.
pub open spec fn inserted_count(
    cache: Map<CacheKey, i64>,
    ledger: LedgerView,
    calls: Seq<Call>,
) -> int
    decreases calls.len(),
{
    if calls.len() == 0 {
        0
    } else {
        inserted_count(cache, ledger, calls.drop_last()) + if outcome_of(
            cache_after_all(cache, ledger, calls.drop_last()),
            ledger_after_all(cache, ledger, calls.drop_last()),
            calls.last(),
        ) == Outcome::Inserted {
            1int
        } else {
            0int
        }
    }
}

/// One remembered event.
struct CacheEntry {
    package_id: Option<PackageId>,
    level: NotificationLevel,
    title: String,
    last_issued: i64,
}

impl CacheEntry {
    spec fn key(&self) -> CacheKey {
        CacheKey { package_id: id_view(self.package_id), level: self.level, title: self.title@ }
    }
}

spec fn holds(entries: Seq<CacheEntry>, key: CacheKey) -> bool {
    exists|i: int| 0 <= i < entries.len() && (#[trigger] entries[i]).key() == key
}

spec fn index_of(entries: Seq<CacheEntry>, key: CacheKey) -> int {
    choose|i: int| 0 <= i < entries.len() && (#[trigger] entries[i]).key() == key
}

spec fn distinct_keys(entries: Seq<CacheEntry>) -> bool {
    forall|i: int, j: int|
        0 <= i < j < entries.len() ==> (#[trigger] entries[i]).key() != (#[trigger] entries[j]).key()
}

/// Holds back events that repeat within an interval. What it remembers is
/// lost when the process ends: it only spares the ledger repeated rows.
pub struct NotificationManager {
    cache: Vec<CacheEntry>,
}

impl View for NotificationManager {
    type V = Map<CacheKey, i64>;

    /// When each event was last let through.
    closed spec fn view(&self) -> Map<CacheKey, i64> {
        Map::new(
            |key: CacheKey| holds(self.cache@, key),
            |key: CacheKey| self.cache@[index_of(self.cache@, key)].last_issued,
        )
    }
}

/// The time now, in seconds since the Unix epoch: `chrono::Utc::now` and
/// `DateTime::timestamp`. Nothing is claimed of the number, which is the
/// machine's clock.
#[verifier::external_body]
fn unix_now() -> (now: i64) {
    chrono::Utc::now().timestamp()
}

fn same_package(a: &Option<PackageId>, b: &Option<PackageId>) -> (same: bool)
    ensures
        same == (id_view(*a) == id_view(*b)),
{
    match (a, b) {
        (Some(x), Some(y)) => text_equal(x.as_str(), y.as_str()),
        (None, None) => true,
        _ => false,
    }
}

impl NotificationManager {
    /// No event is remembered twice.
    pub closed spec fn wf(&self) -> bool {
        distinct_keys(self.cache@)
    }

    /// A manager that remembers nothing.
    pub fn new() -> (manager: NotificationManager)
        ensures
            manager.wf(),
            manager@ == Map::<CacheKey, i64>::empty(),
    {
        let manager = NotificationManager { cache: Vec::new() };
        assert(manager@ =~= Map::<CacheKey, i64>::empty());
        manager
    }

    /// Where the cache holds the event.
    fn find(
        &self,
        package_id: &Option<PackageId>,
        level: NotificationLevel,
        title: &String,
    ) -> (found: Option<usize>)
        requires
            self.wf(),
        ensures
            ({
                let key = CacheKey { package_id: id_view(*package_id), level, title: title@ };
                match found {
                    Some(i) => i < self.cache@.len() && self.cache@[i as int].key() == key
                        && self@.contains_key(key) && self@[key] == self.cache@[i as int].last_issued,
                    None => !self@.contains_key(key) && forall|j: int|
                        0 <= j < self.cache@.len() ==> (#[trigger] self.cache@[j]).key() != key,
                }
            }),
    {
        let ghost key = CacheKey { package_id: id_view(*package_id), level, title: title@ };
        let mut i: usize = 0;
        while i < self.cache.len()
            invariant
                i <= self.cache@.len(),
                self.wf(),
                key == (CacheKey { package_id: id_view(*package_id), level, title: title@ }),
                forall|j: int| 0 <= j < i ==> (#[trigger] self.cache@[j]).key() != key,
            decreases self.cache@.len() - i,
        {
            let entry = &self.cache[i];
            if entry.level == level && entry.title == *title && same_package(
                &entry.package_id,
                package_id,
            ) {
                proof {
                    assert(self.cache@[i as int].key() == key);
                    assert(holds(self.cache@, key));
                    let chosen = index_of(self.cache@, key);
                    assert(self.cache@[chosen].key() == key);
                    assert(chosen == i);
                }
                return Some(i);
            }
            i += 1;
        }
        None
    }

    /// Decides whether an event is let through at the time `now`, and
    /// remembers the time where it is.
    pub fn should_notify(
        &mut self,
        package_id: &Option<PackageId>,
        level: &NotificationLevel,
        title: &String,
        debounce_interval: Option<u32>,
        now: i64,
    ) -> (admitted: bool)
        requires
            old(self).wf(),
        ensures
            final(self).wf(),
            ({
                let key = CacheKey { package_id: id_view(*package_id), level: *level, title: title@ };
                admitted == admits(old(self)@, key, debounce_interval, now) && final(self)@
                    == cache_after(old(self)@, key, debounce_interval, now)
            }),
    {
        let ghost key = CacheKey { package_id: id_view(*package_id), level: *level, title: title@ };
        let ghost before = self.cache@;
        match self.find(package_id, *level, title) {
            None => {
                let id = match package_id {
                    Some(p) => Some(p.duplicate()),
                    None => None,
                };
                self.cache.push(
                    CacheEntry { package_id: id, level: *level, title: title.clone(), last_issued: now },
                );
                proof {
                    let after = self.cache@;
                    assert(after.last().key() == key);
                    assert forall|i: int| 0 <= i < before.len() implies after[i] == before[i] by {}
                    assert forall|k: CacheKey| holds(after, k) == (k == key || holds(before, k)) by {
                        if holds(before, k) {
                            let w = index_of(before, k);
                            assert(after[w].key() == k);
                        }
                        if k == key {
                            assert(after[after.len() - 1].key() == k);
                        }
                    }
                    assert forall|k: CacheKey| holds(after, k) implies after[index_of(
                        after,
                        k,
                    )].last_issued == (if k == key {
                        now
                    } else {
                        before[index_of(before, k)].last_issued
                    }) by {
                        let w = index_of(after, k);
                        if k != key {
                            assert(before[w].key() == k);
                            let v = index_of(before, k);
                            assert(before[v].key() == k);
                            assert(v == w);
                        } else {
                            assert(w == after.len() - 1);
                        }
                    }
                    assert(self@ =~= old(self)@.insert(key, now));
                }
                true
            },
            Some(i) => {
                let last: i64 = self.cache[i].last_issued;
                let admitted: bool = match debounce_interval {
                    None => true,
                    Some(seconds) => last as i128 + seconds as i128 <= now as i128,
                };
                if admitted {
                    let mut entry = self.cache.remove(i);
                    entry.last_issued = now;
                    self.cache.insert(i, entry);
                    proof {
                        let after = self.cache@;
                        assert(after.len() == before.len());
                        assert forall|j: int| 0 <= j < before.len() implies (#[trigger] after[j]).key()
                            == before[j].key() && (j != i ==> after[j] == before[j]) by {}
                        assert(after[i as int].last_issued == now);
                        assert forall|k: CacheKey| holds(after, k) == holds(before, k) by {
                            if holds(before, k) {
                                let w = index_of(before, k);
                                assert(after[w].key() == k);
                            }
                            if holds(after, k) {
                                let w = index_of(after, k);
                                assert(before[w].key() == k);
                            }
                        }
                        assert forall|k: CacheKey| holds(after, k) implies after[index_of(
                            after,
                            k,
                        )].last_issued == (if k == key {
                            now
                        } else {
                            before[index_of(before, k)].last_issued
                        }) by {
                            let w = index_of(after, k);
                            assert(before[w].key() == k);
                            let v = index_of(before, k);
                            assert(before[v].key() == k);
                            assert(v == w);
                            if k == key {
                                assert(before[i as int].key() == key);
                                assert(w == i);
                            }
                        }
                        assert(self@ =~= old(self)@.insert(key, now));
                    }
                }
                admitted
            },
        }
    }
}


/// What a call of `notify` leaves behind: the cache, the ledger and the
/// result that belong to `call`.
pub open spec fn notified(
    cache: Map<CacheKey, i64>,
    ledger: LedgerView,
    call: Call,
    cache_then: Map<CacheKey, i64>,
    ledger_then: LedgerView,
    r: Result<(), Error>,
) -> bool {
    &&& cache_then == cache_after(cache, call.key, call.interval, call.now)
    &&& ledger_then == ledger_after(cache, ledger, call)
    &&& result_matches(r, outcome_of(cache, ledger, call))
}

/// How a result of `notify` reads as an outcome, for an event that was let
/// through or not.
pub open spec fn result_matches(r: Result<(), Error>, outcome: Outcome) -> bool {
    match outcome {
        Outcome::Inserted => r.is_ok(),
        Outcome::Suppressed => r.is_ok(),
        Outcome::Failed(kind) => r matches Err(e) && e.kind == kind,
    }
}

impl NotificationManager {
    /// Reports an event at the time `now`. An event that the cache holds back
    /// changes nothing and is no error. One that is let through is remembered
    /// with the time; then its data must be JSON (else the error is of the
    /// kind `Serialization`) and the ledger gets a row with the code of the
    /// payload's kind and counts it as unread (a full ledger gives an error of
    /// the kind `Database`).
    pub fn notify_at<T: NotificationType>(
        &mut self,
        ledger: &mut Ledger,
        package_id: Option<PackageId>,
        level: NotificationLevel,
        title: String,
        message: String,
        data: String,
        debounce_interval: Option<u32>,
        now: i64,
    ) -> (r: Result<(), Error>)
        requires
            old(self).wf(),
            old(ledger)@.wf(),
        ensures
            final(self).wf(),
            final(ledger)@.wf(),
            notified(
                old(self)@,
                old(ledger)@,
                (Call {
                    key: CacheKey { package_id: id_view(package_id), level, title: title@ },
                    code: T::code_spec(),
                    message: message@,
                    data: data@,
                    interval: debounce_interval,
                    now,
                }),
                final(self)@,
                final(ledger)@,
                r,
            ),
    {
        if !self.should_notify(&package_id, &level, &title, debounce_interval, now) {
            return Ok(());
        }
        match json_check(data.as_str()) {
            Some(fault) => {
                return Err(Error::new(ErrorKind::Serialization, fault));
            },
            None => {},
        }
        ledger.insert(&package_id, T::code(), level, title, message, data, now)
    }

    /// Reports an event now: `notify_at` with the time of the machine's
    /// clock.
    pub fn notify<T: NotificationType>(
        &mut self,
        ledger: &mut Ledger,
        package_id: Option<PackageId>,
        level: NotificationLevel,
        title: String,
        message: String,
        data: String,
        debounce_interval: Option<u32>,
    ) -> (r: Result<(), Error>)
        requires
            old(self).wf(),
            old(ledger)@.wf(),
        ensures
            final(self).wf(),
            final(ledger)@.wf(),
            exists|now: i64|
                #[trigger] notified(
                    old(self)@,
                    old(ledger)@,
                    (Call {
                        key: CacheKey { package_id: id_view(package_id), level, title: title@ },
                        code: T::code_spec(),
                        message: message@,
                        data: data@,
                        interval: debounce_interval,
                        now,
                    }),
                    final(self)@,
                    final(ledger)@,
                    r,
                ),
    {
        let now: i64 = unix_now();
        let ghost call = Call {
            key: CacheKey { package_id: id_view(package_id), level, title: title@ },
            code: T::code_spec(),
            message: message@,
            data: data@,
            interval: debounce_interval,
            now,
        };
        let r = self.notify_at::<T>(
            ledger,
            package_id,
            level,
            title,
            message,
            data,
            debounce_interval,
            now,
        );
        proof {
            assert(notified(old(self)@, old(ledger)@, call, self@, ledger@, r));
        }
        r
    }
}

/// Two reports of one event with an interval to hold repeats back: where the
/// first gets a row, the second gets one exactly if it comes at least the
/// interval after the first. So less than the interval apart they leave one
/// row, and at least the interval apart, two.
pub proof fn lemma_debounce(
    cache: Map<CacheKey, i64>,
    ledger: LedgerView,
    first: Call,
    second: Call,
    interval: u32,
)
    requires
        ledger.wf(),
        first.key == second.key,
        first.interval == Some(interval),
        second.interval == Some(interval),
        outcome_of(cache, ledger, first) == Outcome::Inserted,
        json_fault(second.data).is_none(),
        ledger.next_id + 1 < i32::MAX,
        ledger.unread + 1 < u64::MAX,
    ensures
        ({
            let cache1 = cache_after(cache, first.key, first.interval, first.now);
            let ledger1 = ledger_after(cache, ledger, first);
            let ledger2 = ledger_after(cache1, ledger1, second);
            &&& second.now - first.now < interval ==> outcome_of(cache1, ledger1, second)
                == Outcome::Suppressed && ledger2.rows.len() == ledger.rows.len() + 1
                && ledger2.unread == ledger.unread + 1
            &&& second.now - first.now >= interval ==> outcome_of(cache1, ledger1, second)
                == Outcome::Inserted && ledger2.rows.len() == ledger.rows.len() + 2
                && ledger2.unread == ledger.unread + 2
        }),
{
}

/// A report with no interval is never held back: it gets a row whatever the
/// cache remembers.
pub proof fn lemma_no_interval_always_inserts(
    cache: Map<CacheKey, i64>,
    ledger: LedgerView,
    call: Call,
)
    requires
        call.interval.is_none(),
        json_fault(call.data).is_none(),
        ledger.has_room(),
    ensures
        outcome_of(cache, ledger, call) == Outcome::Inserted,
        ledger_after(cache, ledger, call).rows.len() == ledger.rows.len() + 1,
{
}

/// A call keeps the ledger well-formed, adds a row exactly where it counts
/// one more as unread, and gives each new row a higher identifier than any
/// row before it.
pub proof fn lemma_call_keeps_ledger(cache: Map<CacheKey, i64>, ledger: LedgerView, call: Call)
    requires
        ledger.wf(),
    ensures
        ({
            let after = ledger_after(cache, ledger, call);
            let added = after.rows.len() - ledger.rows.len();
            &&& after.wf()
            &&& 0 <= added <= 1
            &&& added == after.unread - ledger.unread
            &&& after.rows.take(ledger.rows.len() as int) == ledger.rows
            &&& added == 1 ==> forall|i: int|
                0 <= i < ledger.rows.len() ==> (#[trigger] ledger.rows[i]).id < after.rows.last().id
        }),
{
    let after = ledger_after(cache, ledger, call);
    assert(after.rows.take(ledger.rows.len() as int) =~= ledger.rows);
    if outcome_of(cache, ledger, call) == Outcome::Inserted {
        assert forall|i: int, j: int| 0 <= i < j < after.rows.len() implies after.rows[i].id
            < after.rows[j].id by {
            if j < ledger.rows.len() {
                assert(after.rows[i] == ledger.rows[i]);
                assert(after.rows[j] == ledger.rows[j]);
            } else {
                assert(after.rows[i] == ledger.rows[i]);
            }
        }
        assert forall|i: int| 0 <= i < after.rows.len() implies 1 <= (#[trigger] after.rows[i]).id
            < after.next_id by {
            if i < ledger.rows.len() {
                assert(after.rows[i] == ledger.rows[i]);
            }
        }
    }
}

/// After any run of calls with no listing in between, the count of unread
/// notifications has grown by the number of calls that got a row, and so has
/// the number of rows; the ledger is still well-formed. Listing the latest
/// notifications then sets the count to zero, whatever it was.
pub proof fn lemma_counter_counts(cache: Map<CacheKey, i64>, ledger: LedgerView, calls: Seq<Call>)
    requires
        ledger.wf(),
    ensures
        ledger_after_all(cache, ledger, calls).wf(),
        ledger_after_all(cache, ledger, calls).unread == ledger.unread + inserted_count(
            cache,
            ledger,
            calls,
        ),
        ledger_after_all(cache, ledger, calls).rows.len() == ledger.rows.len() + inserted_count(
            cache,
            ledger,
            calls,
        ),
        0 <= inserted_count(cache, ledger, calls) <= calls.len(),
        ledger_after_all(cache, ledger, calls).after_list(None).unread == 0,
    decreases calls.len(),
{
    if calls.len() > 0 {
        lemma_counter_counts(cache, ledger, calls.drop_last());
        lemma_call_keeps_ledger(
            cache_after_all(cache, ledger, calls.drop_last()),
            ledger_after_all(cache, ledger, calls.drop_last()),
            calls.last(),
        );
    }
}


/// The latest notifications: `Ledger::list`.
pub fn list(ledger: &mut Ledger, before: Option<i32>, limit: Option<u32>) -> (r: Result<
    Vec<Notification>,
    Error,
>)
    requires
        old(ledger)@.wf(),
    ensures
        final(ledger)@.wf(),
        ({
            let limit = match limit {
                Some(n) => n,
                None => DEFAULT_LIST_LIMIT,
            };
            let listed = old(ledger)@.listed(before, limit as int);
            if all_readable(listed) {
                r matches Ok(list) && notification_views(list@) == notifications_of(listed)
                    && final(ledger)@ == old(ledger)@.after_list(before)
            } else {
                r matches Err(e) && e.kind == ErrorKind::ParseDbField && e.message@ == list_fault(
                    listed,
                ) && final(ledger)@ == old(ledger)@
            }
        }),
{
    ledger.list(before, limit)
}

/// Takes one notification out: `Ledger::delete`.
pub fn delete(ledger: &mut Ledger, id: i32)
    requires
        old(ledger)@.wf(),
    ensures
        final(ledger)@.wf(),
        final(ledger)@ == old(ledger)@.delete(id),
{
    ledger.delete(id)
}

/// Takes the notifications below `before` out: `Ledger::delete_before`.
pub fn delete_before(ledger: &mut Ledger, before: i32)
    requires
        old(ledger)@.wf(),
    ensures
        final(ledger)@.wf(),
        final(ledger)@ == old(ledger)@.delete_before(before),
{
    ledger.delete_before(before)
}

/// Reports an event by hand: a notification with no payload, which is never
/// held back.
pub fn create(
    manager: &mut NotificationManager,
    ledger: &mut Ledger,
    package: Option<PackageId>,
    level: NotificationLevel,
    title: String,
    message: String,
) -> (r: Result<(), Error>)
    requires
        old(manager).wf(),
        old(ledger)@.wf(),
    ensures
        final(manager).wf(),
        final(ledger)@.wf(),
        exists|now: i64|
            #[trigger] notified(
                old(manager)@,
                old(ledger)@,
                (Call {
                    key: CacheKey { package_id: id_view(package), level, title: title@ },
                    code: 0,
                    message: message@,
                    data: "null"@,
                    interval: None,
                    now,
                }),
                final(manager)@,
                final(ledger)@,
                r,
            ),
{
    manager.notify::<()>(ledger, package, level, title, message, "null".to_owned(), None)
}

} // verus!
