//! The spreadsheet export of time entries: the text of its cells and the
//! name under which it is downloaded.
use vstd::prelude::*;
use crate::models::{clone_opt_string, find_project, project_with_id, Project, TimeEntry, User};
use crate::text::str_eq;
use crate::calendar::Date;
use crate::query::{entry_admitted, filter_admits, on_or_before, EntryFilter};
use crate::time_entry::{approved, dept_approved, pending, rejected};
use vstd::string::StringSliceAdditionalSpecFns;

verus! {

/// The label of a status in the export; unknown statuses appear as they are.
pub open spec fn status_label_of(status: Seq<char>) -> Seq<char> {
    if status == pending() {
        "待审批"@
    } else if status == dept_approved() {
        "部门已审批"@
    } else if status == approved() {
        "已通过"@
    } else if status == rejected() {
        "已拒绝"@
    } else {
        status
    }
}

pub fn status_label(status: &str) -> (r: String)
    ensures
        r@ == status_label_of(status@),
{
    if str_eq(status, "pending") {
        String::from_str("待审批")
    } else if str_eq(status, "dept_approved") {
        String::from_str("部门已审批")
    } else if str_eq(status, "approved") {
        String::from_str("已通过")
    } else if str_eq(status, "rejected") {
        String::from_str("已拒绝")
    } else {
        String::from_str(status)
    }
}

/// The name of the last account of `users` with identifier `id` (the one a
/// map built from the list in order keeps).
pub open spec fn name_of(users: Seq<User>, id: i32) -> Option<Seq<char>>
    decreases users.len(),
{
    if users.len() == 0 {
        None
    } else if users.last().id == id {
        Some(users.last().username@)
    } else {
        name_of(users.drop_last(), id)
    }
}

/// The text cells of one exported entry.
pub struct ExportLabels {
    pub user: String,
    pub project_no: String,
    pub project_name: String,
    pub status: String,
}

/// The user cell of `entry`: the owner's name, or `-`.
pub open spec fn user_label(entry: TimeEntry, users: Seq<User>) -> Seq<char> {
    match name_of(users, entry.user_id) {
        Some(n) => n,
        None => "-"@,
    }
}

/// The project number and project name cells of `entry`: the number, else
/// the code, else `-`; `-` for both when the project is unknown.
pub open spec fn project_labels(entry: TimeEntry, projects: Seq<Project>) -> (Seq<char>, Seq<char>) {
    match entry.project_id {
        Some(pid) => match project_with_id(projects, pid) {
            Some(p) => (
                match p.project_no {
                    Some(no) => no@,
                    None => match p.code {
                        Some(c) => c@,
                        None => "-"@,
                    },
                },
                p.name@,
            ),
            None => ("-"@, "-"@),
        },
        None => ("-"@, "-"@),
    }
}

/// Whether `l` holds the text cells of `entry`.
pub open spec fn labels_match(l: ExportLabels, entry: TimeEntry, users: Seq<User>, projects: Seq<Project>) -> bool {
    &&& l.user@ == user_label(entry, users)
    &&& (l.project_no@, l.project_name@) == project_labels(entry, projects)
    &&& l.status@ == status_label_of(entry.status@)
}

/// The user, project number, project name and status shown for `entry`:
/// `-` for an unknown user or project, and the project's code when it has
/// no number.
pub fn export_labels(entry: &TimeEntry, users: &Vec<User>, projects: &Vec<Project>) -> (r: ExportLabels)
    ensures
        labels_match(r, *entry, users@, projects@),
{
    let mut user: Option<String> = None;
    let mut i: usize = 0;
    while i < users.len()
        invariant
            i <= users@.len(),
            match user {
                Some(n) => name_of(users@.take(i as int), entry.user_id) == Some(n@),
                None => name_of(users@.take(i as int), entry.user_id) is None,
            },
        decreases users.len() - i,
    {
        assert(users@.take(i + 1).drop_last() =~= users@.take(i as int));
        if users[i].id == entry.user_id {
            user = Some(users[i].username.clone());
        }
        i = i + 1;
    }
    assert(users@.take(users@.len() as int) =~= users@);
    let user = match user {
        Some(n) => n,
        None => String::from_str("-"),
    };
    let (project_no, project_name) = match entry.project_id {
        Some(pid) => match find_project(projects, pid) {
            Some(p) => {
                let no = match &p.project_no {
                    Some(no) => no.clone(),
                    None => match &p.code {
                        Some(c) => c.clone(),
                        None => String::from_str("-"),
                    },
                };
                (no, p.name.clone())
            },
            None => (String::from_str("-"), String::from_str("-")),
        },
        None => (String::from_str("-"), String::from_str("-")),
    };
    ExportLabels { user, project_no, project_name, status: status_label(entry.status.as_str()) }
}

/// The positions in `entries` of those that `f` admits, in order.
pub open spec fn admitted_positions(f: EntryFilter, entries: Seq<TimeEntry>) -> Seq<int>
    decreases entries.len(),
{
    if entries.len() == 0 {
        Seq::empty()
    } else if filter_admits(f, entries.last()) {
        admitted_positions(f, entries.drop_last()).push(entries.len() - 1)
    } else {
        admitted_positions(f, entries.drop_last())
    }
}

/// The positions as integers.
pub open spec fn as_ints(ps: Seq<usize>) -> Seq<int> {
    ps.map_values(|p: usize| p as int)
}

/// The positions of the rows, as integers.
pub open spec fn row_positions(rows: Seq<(usize, ExportLabels)>) -> Seq<int> {
    rows.map_values(|row: (usize, ExportLabels)| row.0 as int)
}

/// The entries at positions `ps` come newest first.
pub open spec fn newest_first(entries: Seq<TimeEntry>, ps: Seq<int>) -> bool {
    forall|a: int, b: int|
        0 <= a < b < ps.len() ==> on_or_before(
            entries[#[trigger] ps[b]].work_date,
            entries[#[trigger] ps[a]].work_date,
        )
}

fn date_on_or_before(a: Date, b: Date) -> (r: bool)
    ensures
        r == on_or_before(a, b),
{
    a.year < b.year || (a.year == b.year && (a.month < b.month || (a.month == b.month && a.day <= b.day)))
}

fn admitted_position_list(f: &EntryFilter, entries: &Vec<TimeEntry>) -> (r: Vec<usize>)
    ensures
        as_ints(r@) == admitted_positions(*f, entries@),
        forall|k: int| 0 <= k < r@.len() ==> #[trigger] r@[k] < entries@.len(),
{
    let mut r: Vec<usize> = Vec::new();
    let mut i: usize = 0;
    while i < entries.len()
        invariant
            i <= entries@.len(),
            as_ints(r@) == admitted_positions(*f, entries@.take(i as int)),
            forall|k: int| 0 <= k < r@.len() ==> #[trigger] r@[k] < i,
        decreases entries.len() - i,
    {
        assert(entries@.take(i + 1).drop_last() =~= entries@.take(i as int));
        assert(entries@.take(i + 1).last() == entries@[i as int]);
        if entry_admitted(f, &entries[i]) {
            let ghost prev = r@;
            r.push(i);
            assert(as_ints(r@) =~= as_ints(prev).push(i as int));
        }
        i = i + 1;
    }
    assert(entries@.take(entries@.len() as int) =~= entries@);
    r
}

/// The positions `ps` reordered so that their entries come newest first;
/// entries of the same day keep their order.
fn sort_newest_first(ps: &Vec<usize>, entries: &Vec<TimeEntry>) -> (r: Vec<usize>)
    requires
        forall|k: int| 0 <= k < ps@.len() ==> #[trigger] ps@[k] < entries@.len(),
    ensures
        as_ints(r@).to_multiset() == as_ints(ps@).to_multiset(),
        newest_first(entries@, as_ints(r@)),
        forall|k: int| 0 <= k < r@.len() ==> #[trigger] r@[k] < entries@.len(),
{
    let mut out: Vec<usize> = Vec::new();
    let mut i: usize = 0;
    assert(as_ints(ps@.take(0)) =~= Seq::<int>::empty());
    assert(as_ints(out@) =~= Seq::<int>::empty());
    while i < ps.len()
        invariant
            i <= ps@.len(),
            forall|k: int| 0 <= k < ps@.len() ==> #[trigger] ps@[k] < entries@.len(),
            forall|k: int| 0 <= k < out@.len() ==> #[trigger] out@[k] < entries@.len(),
            as_ints(out@).to_multiset() == as_ints(ps@.take(i as int)).to_multiset(),
            forall|a: int, b: int|
                0 <= a < b < out@.len() ==> on_or_before(
                    entries@[#[trigger] out@[b] as int].work_date,
                    entries@[#[trigger] out@[a] as int].work_date,
                ),
        decreases ps.len() - i,
    {
        let x = ps[i];
        let dx = entries[x].work_date;
        let mut j: usize = 0;
        while j < out.len() && date_on_or_before(dx, entries[out[j]].work_date)
            invariant
                j <= out@.len(),
                x < entries@.len(),
                dx == entries@[x as int].work_date,
                forall|k: int| 0 <= k < out@.len() ==> #[trigger] out@[k] < entries@.len(),
                forall|a: int| 0 <= a < j ==> on_or_before(dx, entries@[#[trigger] out@[a] as int].work_date),
            decreases out.len() - j,
        {
            j = j + 1;
        }
        let ghost old_out = out@;
        out.insert(j, x);
        proof {
            assert(ps@.take(i + 1) =~= ps@.take(i as int).push(x));
            assert(as_ints(ps@.take(i + 1)) =~= as_ints(ps@.take(i as int)).push(x as int));
            assert(as_ints(out@) =~= as_ints(old_out).insert(j as int, x as int));
            vstd::seq_lib::to_multiset_insert(as_ints(old_out), j as int, x as int);
            vstd::seq_lib::to_multiset_build(as_ints(ps@.take(i as int)), x as int);
            assert forall|a: int, b: int|
                0 <= a < b < out@.len() implies on_or_before(
                    entries@[#[trigger] out@[b] as int].work_date,
                    entries@[#[trigger] out@[a] as int].work_date,
                ) by {
                if b < j {
                    assert(out@[a] == old_out[a] && out@[b] == old_out[b]);
                } else if b == j {
                    assert(out@[a] == old_out[a]);
                } else if a == j {
                    assert(out@[b] == old_out[b - 1]);
                    assert(on_or_before(
                        entries@[old_out[b - 1] as int].work_date,
                        entries@[old_out[j as int] as int].work_date,
                    ) || b - 1 == j);
                } else if a < j {
                    assert(out@[a] == old_out[a] && out@[b] == old_out[b - 1]);
                } else {
                    assert(out@[a] == old_out[a - 1] && out@[b] == old_out[b - 1]);
                }
            }
        }
        i = i + 1;
    }
    assert(ps@.take(ps@.len() as int) =~= ps@);
    out
}

/// The rows of the export, newest first: for each entry of `entries` that
/// `f` admits, its position in `entries` and its text cells. Every admitted
/// entry gives exactly one row; entries of the same day keep their order.
pub fn export_rows(f: &EntryFilter, entries: &Vec<TimeEntry>, users: &Vec<User>, projects: &Vec<Project>) -> (r: Vec<(usize, ExportLabels)>)
    ensures
        row_positions(r@).to_multiset() == admitted_positions(*f, entries@).to_multiset(),
        newest_first(entries@, row_positions(r@)),
        forall|k: int|
            0 <= k < r@.len() ==> (#[trigger] r@[k]).0 < entries@.len() && labels_match(
                r@[k].1,
                entries@[r@[k].0 as int],
                users@,
                projects@,
            ),
{
    let admitted = admitted_position_list(f, entries);
    let sorted = sort_newest_first(&admitted, entries);
    let mut r: Vec<(usize, ExportLabels)> = Vec::new();
    let mut k: usize = 0;
    while k < sorted.len()
        invariant
            k <= sorted@.len(),
            forall|m: int| 0 <= m < sorted@.len() ==> #[trigger] sorted@[m] < entries@.len(),
            r@.len() == k,
            forall|m: int|
                0 <= m < k ==> (#[trigger] r@[m]).0 == sorted@[m] && labels_match(
                    r@[m].1,
                    entries@[r@[m].0 as int],
                    users@,
                    projects@,
                ),
        decreases sorted.len() - k,
    {
        let p = sorted[k];
        let labels = export_labels(&entries[p], users, projects);
        r.push((p, labels));
        k = k + 1;
    }
    assert(row_positions(r@) =~= as_ints(sorted@));
    r
}

/// ASCII letters and digits, the bytes that percent-encoding leaves alone.
pub open spec fn is_ascii_alphanumeric(b: u8) -> bool {
    (48 <= b <= 57) || (65 <= b <= 90) || (97 <= b <= 122)
}

/// An upper-case hexadecimal digit.
pub open spec fn hex_digit(n: int) -> char {
    if n < 10 {
        ((48 + n) as u8) as char
    } else {
        ((55 + n) as u8) as char
    }
}

/// Every byte but ASCII letters and digits written as `%` and two
/// upper-case hexadecimal digits.
pub open spec fn percent_encoded(bytes: Seq<u8>) -> Seq<char>
    decreases bytes.len(),
{
    if bytes.len() == 0 {
        Seq::empty()
    } else {
        let b = bytes.last();
        percent_encoded(bytes.drop_last()) + if is_ascii_alphanumeric(b) {
            seq![b as char]
        } else {
            seq!['%', hex_digit(b as int / 16), hex_digit(b as int % 16)]
        }
    }
}

/// A percent-encoded name holds only ASCII letters, digits and `%`, so it
/// can stand in a header as it is.
pub proof fn lemma_percent_encoded_is_plain(bytes: Seq<u8>)
    ensures
        forall|i: int|
            0 <= i < percent_encoded(bytes).len() ==> {
                let c = #[trigger] percent_encoded(bytes)[i];
                ('0' <= c <= '9') || ('A' <= c <= 'Z') || ('a' <= c <= 'z') || c == '%'
            },
    decreases bytes.len(),
{
    if bytes.len() > 0 {
        lemma_percent_encoded_is_plain(bytes.drop_last());
        let b = bytes.last();
        let head = percent_encoded(bytes.drop_last());
        let tail = if is_ascii_alphanumeric(b) {
            seq![b as char]
        } else {
            seq!['%', hex_digit(b as int / 16), hex_digit(b as int % 16)]
        };
        assert(percent_encoded(bytes) == head + tail);
        assert forall|i: int| 0 <= i < percent_encoded(bytes).len() implies {
            let c = #[trigger] percent_encoded(bytes)[i];
            ('0' <= c <= '9') || ('A' <= c <= 'Z') || ('a' <= c <= 'z') || c == '%'
        } by {
            if i >= head.len() {
                let c = tail[i - head.len()];
                assert(c == percent_encoded(bytes)[i]);
                if is_ascii_alphanumeric(b) {
                    assert(c == b as char);
                } else {
                    assert(0 <= b as int / 16 < 16);
                    assert(0 <= b as int % 16 < 16);
                }
            } else {
                assert(percent_encoded(bytes)[i] == head[i]);
            }
        }
    }
}

/// Calls `percent_encoding::utf8_percent_encode` with `NON_ALPHANUMERIC`,
/// which encodes the UTF-8 bytes of `s` as `percent_encoded` states.
#[verifier::external_body]
fn percent_encode(s: &str) -> (r: String)
    ensures
        r@ == percent_encoded(s.spec_bytes()),
{
    percent_encoding::utf8_percent_encode(s, percent_encoding::NON_ALPHANUMERIC).to_string()
}

/// The `Content-Disposition` of a download named `filename`.
pub fn content_disposition(filename: &str) -> (r: String)
    ensures
        r@ == "attachment; filename="@ + percent_encoded(filename.spec_bytes()),
{
    let encoded = percent_encode(filename);
    String::from_str("attachment; filename=").concat(encoded.as_str())
}

} // verus!
