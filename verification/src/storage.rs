//! Finding the host's storages from the output of `pvesm status`.
use vstd::prelude::*;
use crate::lexical::{contains_text, lines, lines_of, same_text, word_at, words_of};
use crate::constants::TEMPLATE_STORAGE_KINDS;
use crate::process::{run_gives, run_through, CommandRunner};

verus! {

/// One row of `pvesm status`: a storage and its type.
pub struct StorageEntry {
    pub name: String,
    pub kind: String,
}

impl View for StorageEntry {
    type V = (Seq<char>, Seq<char>);

    open spec fn view(&self) -> (Seq<char>, Seq<char>) {
        (self.name@, self.kind@)
    }
}

/// The rows of a `pvesm status` output below its header line.
pub open spec fn status_rows(output: Seq<char>) -> Seq<Seq<char>> {
    let ls = lines(output);
    if ls.len() == 0 {
        seq![]
    } else {
        ls.drop_first()
    }
}

/// The names of some storage entries.
pub open spec fn entry_names(entries: Seq<(Seq<char>, Seq<char>)>) -> Seq<Seq<char>> {
    entries.map_values(|e: (Seq<char>, Seq<char>)| e.0)
}

/// Whether a row names an active storage: its first column is not empty and
/// its third column is `active`.
pub open spec fn row_is_active(row: Seq<char>) -> bool {
    word_at(row, 0).len() > 0 && word_at(row, 2) == "active"@
}

/// The storages of `rows`, in order: each active row gives its name (first
/// column) and type (second column), and a name that came before is skipped.
pub open spec fn entries_in(rows: Seq<Seq<char>>) -> Seq<(Seq<char>, Seq<char>)>
    decreases rows.len(),
{
    if rows.len() == 0 {
        seq![]
    } else {
        let prev = entries_in(rows.drop_last());
        let row = rows.last();
        if row_is_active(row) && !entry_names(prev).contains(word_at(row, 0)) {
            prev.push((word_at(row, 0), word_at(row, 1)))
        } else {
            prev
        }
    }
}

/// The storages that a `pvesm status` output lists.
pub open spec fn storage_entries(output: Seq<char>) -> Seq<(Seq<char>, Seq<char>)> {
    entries_in(status_rows(output))
}

/// Whether storages of type `kind` can hold container templates: `kind` is
/// one of `TEMPLATE_STORAGE_KINDS`.
pub open spec fn holds_templates(kind: Seq<char>) -> bool {
    exists|i: int| 0 <= i < TEMPLATE_STORAGE_KINDS@.len() && TEMPLATE_STORAGE_KINDS@[i]@ == kind
}

/// The names of the storages among `entries` whose type can hold templates,
/// in order, each once.
pub open spec fn template_names(entries: Seq<(Seq<char>, Seq<char>)>) -> Seq<Seq<char>>
    decreases entries.len(),
{
    if entries.len() == 0 {
        seq![]
    } else {
        let prev = template_names(entries.drop_last());
        let e = entries.last();
        if holds_templates(e.1) && !prev.contains(e.0) {
            prev.push(e.0)
        } else {
            prev
        }
    }
}

/// Whether storages of type `kind` can hold container templates.
pub fn supports_templates(kind: &str) -> (r: bool)
    ensures
        r == holds_templates(kind@),
        r <==> (kind@ == "dir"@ || kind@ == "nfs"@ || kind@ == "cifs"@ || kind@ == "cephfs"@
            || kind@ == "glusterfs"@ || kind@ == "zfs"@),
{
    proof {
        lemma_template_kinds(kind@);
    }
    let kinds = TEMPLATE_STORAGE_KINDS;
    for i in 0..kinds.len()
        invariant
            kinds@ == TEMPLATE_STORAGE_KINDS@,
            forall|j: int| 0 <= j < i ==> kinds@[j]@ != kind@,
    {
        if same_text(kinds[i], kind) {
            return true;
        }
    }
    false
}

/// The `k`-th column of a row, or the empty text.
fn column(cols: &Vec<String>, k: usize) -> (r: String)
    ensures
        r@ == (if k < cols.len() {
            cols.deep_view()[k as int]
        } else {
            Seq::<char>::empty()
        }),
{
    if k < cols.len() {
        cols[k].clone()
    } else {
        String::new()
    }
}

/// Whether one of `entries` has the name `name`.
fn has_entry_named(entries: &Vec<StorageEntry>, name: &String) -> (r: bool)
    ensures
        r == entry_names(entries@.map_values(|e: StorageEntry| e@)).contains(name@),
{
    let ghost names = entry_names(entries@.map_values(|e: StorageEntry| e@));
    for i in 0..entries.len()
        invariant
            names == entry_names(entries@.map_values(|e: StorageEntry| e@)),
            names.len() == entries.len(),
            forall|j: int| 0 <= j < i ==> names[j] != name@,
    {
        assert(names[i as int] == entries@[i as int].name@);
        if entries[i].name == *name {
            assert(names[i as int] == name@);
            return true;
        }
    }
    false
}

/// The storages that the `pvesm status` output `output` lists.
pub fn storage_entries_from(output: &str) -> (r: Vec<StorageEntry>)
    ensures
        r@.map_values(|e: StorageEntry| e@) == storage_entries(output@),
{
    let rows = lines_of(output);
    let mut out: Vec<StorageEntry> = Vec::new();
    if rows.len() == 0 {
        assert(out@.map_values(|e: StorageEntry| e@) =~= Seq::<(Seq<char>, Seq<char>)>::empty());
        return out;
    }
    let ghost body = rows.deep_view().drop_first();
    assert(body == status_rows(output@));
    assert(rows.deep_view().subrange(1, 1) =~= Seq::<Seq<char>>::empty());
    assert(out@.map_values(|e: StorageEntry| e@) =~= Seq::<(Seq<char>, Seq<char>)>::empty());
    for i in 1..rows.len()
        invariant
            1 <= i <= rows.len(),
            body == rows.deep_view().drop_first(),
            out@.map_values(|e: StorageEntry| e@) == entries_in(
                rows.deep_view().subrange(1, i as int),
            ),
    {
        let ghost prev = out@.map_values(|e: StorageEntry| e@);
        let ghost row = rows.deep_view()[i as int];
        assert(rows.deep_view().subrange(1, i + 1).drop_last() =~= rows.deep_view().subrange(
            1,
            i as int,
        ));
        assert(rows.deep_view().subrange(1, i + 1).last() == row);
        assert(rows[i as int]@ == row);
        let cols = words_of(rows[i].as_str());
        let name = column(&cols, 0);
        let kind = column(&cols, 1);
        let state = column(&cols, 2);
        assert(name@ == word_at(row, 0));
        assert(kind@ == word_at(row, 1));
        assert(state@ == word_at(row, 2));
        if !name.as_str().is_empty() && same_text(state.as_str(), "active") && !has_entry_named(
            &out,
            &name,
        ) {
            out.push(StorageEntry { name, kind });
            assert(out@.map_values(|e: StorageEntry| e@) =~= prev.push(
                (word_at(row, 0), word_at(row, 1)),
            ));
        }
    }
    assert(rows.deep_view().subrange(1, rows.len() as int) =~= body);
    out
}

/// The names of the storages that a `pvesm status` output lists.
pub open spec fn storage_names(output: Seq<char>) -> Seq<Seq<char>> {
    entry_names(storage_entries(output))
}

/// The storages that a `pvesm status` output lists whose type can hold templates.
pub open spec fn template_storages(output: Seq<char>) -> Seq<Seq<char>> {
    template_names(storage_entries(output))
}

/// The names of `entries`.
pub fn names_of(entries: &Vec<StorageEntry>) -> (r: Vec<String>)
    ensures
        r.deep_view() == entry_names(entries@.map_values(|e: StorageEntry| e@)),
{
    let ghost ev = entries@.map_values(|e: StorageEntry| e@);
    let mut names: Vec<String> = Vec::new();
    for i in 0..entries.len()
        invariant
            ev == entries@.map_values(|e: StorageEntry| e@),
            names.deep_view() == entry_names(ev.take(i as int)),
    {
        let ghost before = names.deep_view();
        let name = entries[i].name.clone();
        names.push(name);
        assert(names.deep_view() =~= before.push(name@));
        assert(ev[i as int].0 == name@);
        assert(entry_names(ev.take(i + 1)) =~= entry_names(ev.take(i as int)).push(ev[i as int].0));
    }
    assert(ev.take(entries.len() as int) =~= ev);
    names
}

/// The names of those of `entries` whose type can hold templates, each once.
pub fn template_names_of(entries: &Vec<StorageEntry>) -> (r: Vec<String>)
    ensures
        r.deep_view() == template_names(entries@.map_values(|e: StorageEntry| e@)),
{
    let ghost ev = entries@.map_values(|e: StorageEntry| e@);
    let mut candidates: Vec<String> = Vec::new();
    assert(ev.take(0) =~= Seq::<(Seq<char>, Seq<char>)>::empty());
    for i in 0..entries.len()
        invariant
            ev == entries@.map_values(|e: StorageEntry| e@),
            candidates.deep_view() == template_names(ev.take(i as int)),
    {
        let e = &entries[i];
        assert(ev.take(i + 1).drop_last() =~= ev.take(i as int));
        assert(ev.take(i + 1).last() == e@);
        if supports_templates(e.kind.as_str()) && !contains_text(&candidates, e.name.as_str()) {
            let ghost before = candidates.deep_view();
            candidates.push(e.name.clone());
            assert(candidates.deep_view() =~= before.push(e.name@));
        }
    }
    assert(ev.take(entries.len() as int) =~= ev);
    candidates
}

/// The arguments of `pvesm` that list the host's storages.
pub open spec fn status_args() -> Seq<Seq<char>> {
    seq!["status"@]
}

/// `r` is what follows the outcome `out` of `pvesm status`: its failure, or
/// what `read` makes of the output.
pub open spec fn read_status<T>(
    out: Result<String, String>,
    r: Result<T, String>,
    read: spec_fn(Seq<char>, T) -> bool,
) -> bool {
    match out {
        Ok(o) => r matches Ok(v) && read(o@, v),
        Err(e) => r == Err::<T, String>(e),
    }
}

/// The storages of the host, read from the output of `pvesm status`; the
/// failure of `pvesm` as it came.
pub fn detect_storage_entries<R: CommandRunner>(runner: &R) -> (r: Result<Vec<StorageEntry>, String>)
    ensures
        exists|out: Result<String, String>|
            #[trigger] run_gives(runner, "pvesm"@, status_args(), out) && read_status(
                out,
                r,
                |o: Seq<char>, entries: Vec<StorageEntry>|
                    entries@.map_values(|e: StorageEntry| e@) == storage_entries(o),
            ),
{
    let args: [&str; 1] = ["status"];
    assert(crate::process::arg_views(args@) =~= status_args());
    match run_through(runner, "pvesm", &args) {
        Ok(out) => Ok(storage_entries_from(out.as_str())),
        Err(e) => Err(e),
    }
}

/// The names of the host's storages; the failure of `pvesm` as it came.
pub fn detect_storages<R: CommandRunner>(runner: &R) -> (r: Result<Vec<String>, String>)
    ensures
        exists|out: Result<String, String>|
            #[trigger] run_gives(runner, "pvesm"@, status_args(), out) && read_status(
                out,
                r,
                |o: Seq<char>, names: Vec<String>| names.deep_view() == storage_names(o),
            ),
{
    let found = detect_storage_entries(runner);
    let ghost out = choose|out: Result<String, String>|
        #[trigger] run_gives(runner, "pvesm"@, status_args(), out) && read_status(
            out,
            found,
            |o: Seq<char>, entries: Vec<StorageEntry>|
                entries@.map_values(|e: StorageEntry| e@) == storage_entries(o),
        );
    match found {
        Ok(entries) => {
            let names = names_of(&entries);
            assert(run_gives(runner, "pvesm"@, status_args(), out));
            Ok(names)
        },
        Err(e) => {
            assert(run_gives(runner, "pvesm"@, status_args(), out));
            Err(e)
        },
    }
}

/// The host's storages that can hold container templates; the failure of
/// `pvesm` as it came.
pub fn detect_template_storages<R: CommandRunner>(runner: &R) -> (r: Result<Vec<String>, String>)
    ensures
        exists|out: Result<String, String>|
            #[trigger] run_gives(runner, "pvesm"@, status_args(), out) && read_status(
                out,
                r,
                |o: Seq<char>, names: Vec<String>| names.deep_view() == template_storages(o),
            ),
{
    let found = detect_storage_entries(runner);
    let ghost out = choose|out: Result<String, String>|
        #[trigger] run_gives(runner, "pvesm"@, status_args(), out) && read_status(
            out,
            found,
            |o: Seq<char>, entries: Vec<StorageEntry>|
                entries@.map_values(|e: StorageEntry| e@) == storage_entries(o),
        );
    match found {
        Ok(entries) => {
            let names = template_names_of(&entries);
            assert(run_gives(runner, "pvesm"@, status_args(), out));
            Ok(names)
        },
        Err(e) => {
            assert(run_gives(runner, "pvesm"@, status_args(), out));
            Err(e)
        },
    }
}

proof fn lemma_entries_distinct(rows: Seq<Seq<char>>)
    ensures
        entry_names(entries_in(rows)).no_duplicates(),
    decreases rows.len(),
{
    if rows.len() > 0 {
        lemma_entries_distinct(rows.drop_last());
        let prev = entries_in(rows.drop_last());
        let row = rows.last();
        if row_is_active(row) && !entry_names(prev).contains(word_at(row, 0)) {
            let next = prev.push((word_at(row, 0), word_at(row, 1)));
            assert(entry_names(next) =~= entry_names(prev).push(word_at(row, 0)));
            assert forall|i: int, j: int|
                0 <= i < entry_names(next).len() && 0 <= j < entry_names(next).len() && i != j
                    implies entry_names(next)[i] != entry_names(next)[j] by {
                if i == prev.len() as int {
                    assert(entry_names(prev)[j] == entry_names(next)[j]);
                } else if j == prev.len() as int {
                    assert(entry_names(prev)[i] == entry_names(next)[i]);
                }
            }
        }
    }
}

/// No storage is listed twice.
pub proof fn lemma_storage_names_distinct(output: Seq<char>)
    ensures
        storage_names(output).no_duplicates(),
{
    lemma_entries_distinct(status_rows(output));
}

proof fn lemma_template_names_exact(entries: Seq<(Seq<char>, Seq<char>)>)
    ensures
        template_names(entries).no_duplicates(),
        forall|t: Seq<char>|
            template_names(entries).contains(t) <==> exists|i: int|
                0 <= i < entries.len() && #[trigger] entries[i].0 == t && holds_templates(
                    entries[i].1,
                ),
    decreases entries.len(),
{
    if entries.len() > 0 {
        let init = entries.drop_last();
        lemma_template_names_exact(init);
        let prev = template_names(init);
        let e = entries.last();
        assert forall|t: Seq<char>|
            template_names(entries).contains(t) <==> exists|i: int|
                0 <= i < entries.len() && #[trigger] entries[i].0 == t && holds_templates(
                    entries[i].1,
                ) by {
            if template_names(entries).contains(t) {
                if prev.contains(t) {
                    let i = choose|i: int|
                        0 <= i < init.len() && #[trigger] init[i].0 == t && holds_templates(
                            init[i].1,
                        );
                    assert(entries[i] == init[i]);
                } else {
                    assert(entries[entries.len() - 1] == e);
                }
            }
            if exists|i: int|
                0 <= i < entries.len() && #[trigger] entries[i].0 == t && holds_templates(
                    entries[i].1,
                ) {
                let i = choose|i: int|
                    0 <= i < entries.len() && #[trigger] entries[i].0 == t && holds_templates(
                        entries[i].1,
                    );
                if i < init.len() {
                    assert(init[i] == entries[i]);
                    assert(prev.contains(t));
                    if holds_templates(e.1) && !prev.contains(e.0) {
                        let k = choose|k: int| 0 <= k < prev.len() && prev[k] == t;
                        assert(prev.push(e.0)[k] == t);
                    }
                } else {
                    if holds_templates(e.1) && !prev.contains(e.0) {
                        assert(prev.push(e.0)[prev.len() as int] == t);
                    }
                }
            }
        }
        if holds_templates(e.1) && !prev.contains(e.0) {
            let next = prev.push(e.0);
            assert forall|i: int, j: int|
                0 <= i < next.len() && 0 <= j < next.len() && i != j implies next[i] != next[j] by {
                if i == prev.len() as int {
                    assert(prev[j] == next[j]);
                } else if j == prev.len() as int {
                    assert(prev[i] == next[i]);
                }
            }
        }
    }
}

/// The template storages are exactly the listed storages whose type can hold
/// templates, each named once.
pub proof fn lemma_template_storages_exact(output: Seq<char>)
    ensures
        template_storages(output).no_duplicates(),
        forall|t: Seq<char>|
            template_storages(output).contains(t) <==> exists|i: int|
                0 <= i < storage_entries(output).len() && #[trigger] storage_entries(output)[i].0
                    == t && holds_templates(storage_entries(output)[i].1),
{
    lemma_template_names_exact(storage_entries(output));
}

/// Whether storages of the type of `entry` can hold templates.
pub open spec fn entry_holds_templates(entry: (Seq<char>, Seq<char>)) -> bool {
    holds_templates(entry.1)
}

proof fn lemma_template_names_filter(entries: Seq<(Seq<char>, Seq<char>)>)
    requires
        entry_names(entries).no_duplicates(),
    ensures
        template_names(entries) == entry_names(
            entries.filter(|e: (Seq<char>, Seq<char>)| entry_holds_templates(e)),
        ),
    decreases entries.len(),
{
    let pred = |e: (Seq<char>, Seq<char>)| entry_holds_templates(e);
    reveal(Seq::filter);
    if entries.len() == 0 {
        assert(entries.filter(pred) =~= entries);
        assert(entry_names(entries) =~= Seq::<Seq<char>>::empty());
    } else {
        let init = entries.drop_last();
        let e = entries.last();
        assert forall|i: int, j: int|
            0 <= i < entry_names(init).len() && 0 <= j < entry_names(init).len() && i != j
                implies entry_names(init)[i] != entry_names(init)[j] by {
            assert(entry_names(init)[i] == entry_names(entries)[i]);
            assert(entry_names(init)[j] == entry_names(entries)[j]);
        }
        lemma_template_names_filter(init);
        lemma_template_names_exact(init);
        if template_names(init).contains(e.0) {
            let i = choose|i: int|
                0 <= i < init.len() && #[trigger] init[i].0 == e.0 && holds_templates(init[i].1);
            assert(entry_names(entries)[i] == e.0);
            assert(entry_names(entries)[entries.len() - 1] == e.0);
        }
        assert(entries.filter(pred) == if pred(e) {
            init.filter(pred).push(e)
        } else {
            init.filter(pred)
        });
        if pred(e) {
            assert(entry_names(init.filter(pred).push(e)) =~= entry_names(init.filter(pred)).push(
                e.0,
            ));
        }
    }
}

/// The template storages keep the order in which `pvesm status` lists the
/// storages: they are the listed storages whose type can hold templates.
pub proof fn lemma_template_storages_in_order(output: Seq<char>)
    ensures
        template_storages(output) == entry_names(
            storage_entries(output).filter(
                |e: (Seq<char>, Seq<char>)| entry_holds_templates(e),
            ),
        ),
{
    lemma_entries_distinct(status_rows(output));
    lemma_template_names_filter(storage_entries(output));
}

/// Storages can hold templates exactly when their type is one of `dir`,
/// `nfs`, `cifs`, `cephfs`, `glusterfs` and `zfs`, spelled out in full: a
/// type that only begins or ends like one of them (such as `zfspool`) does
/// not.
pub proof fn lemma_template_kinds(kind: Seq<char>)
    ensures
        holds_templates(kind) <==> (kind == "dir"@ || kind == "nfs"@ || kind == "cifs"@ || kind
            == "cephfs"@ || kind == "glusterfs"@ || kind == "zfs"@),
{
    let ks = TEMPLATE_STORAGE_KINDS@;
    assert(ks.len() == 6);
    assert(ks[0]@ == "dir"@);
    assert(ks[1]@ == "nfs"@);
    assert(ks[2]@ == "cifs"@);
    assert(ks[3]@ == "cephfs"@);
    assert(ks[4]@ == "glusterfs"@);
    assert(ks[5]@ == "zfs"@);
    if kind == "dir"@ {
        assert(ks[0]@ == kind);
    } else if kind == "nfs"@ {
        assert(ks[1]@ == kind);
    } else if kind == "cifs"@ {
        assert(ks[2]@ == kind);
    } else if kind == "cephfs"@ {
        assert(ks[3]@ == kind);
    } else if kind == "glusterfs"@ {
        assert(ks[4]@ == kind);
    } else if kind == "zfs"@ {
        assert(ks[5]@ == kind);
    }
}

} // verus!
