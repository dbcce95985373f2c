//! Laws of a whole organizing run, stated over traces of events and proved
//! from the step relation of [`crate::organize`].

use vstd::prelude::*;
use crate::names::spec_extension;
use crate::names::spec_base_name;
use crate::scan::FileModel;
use crate::organize::Model;
use crate::organize::Phase;
use crate::organize::Event;
use crate::organize::spec_step;
use crate::organize::spec_enter_file;
use crate::organize::spec_enter_backup;
use crate::organize::next_file_index;
use crate::organize::next_backup_index;
use crate::organize::cur_ext;
use crate::organize::moved_entry;
use crate::organize::skip_mkdir;
use crate::organize::wf;
use crate::organize::lemma_step_wf;

verus! {

/// The machine after a whole sequence of events, one step per event.
pub open spec fn spec_run(m: Model, evs: Seq<Event>) -> Model
    decreases evs.len(),
{
    if evs.len() == 0 {
        m
    } else {
        spec_run(spec_step(m, evs[0]), evs.drop_first())
    }
}

/// A hard failure is final: once the machine has failed, no later event
/// changes anything.
pub proof fn lemma_failed_is_final(m: Model, evs: Seq<Event>)
    requires
        m.phase is Failed,
    ensures
        spec_run(m, evs) == m,
    decreases evs.len(),
{
    if evs.len() > 0 {
        assert(spec_step(m, evs[0]) == m);
        lemma_failed_is_final(m, evs.drop_first());
    }
}

/// When the source or backup folder fails validation, the whole run fails
/// with that error and performs no work at all: whatever events follow, the
/// machine only reports the error, and the moved, skipped and created
/// records stay exactly as they began. In particular the machine has not
/// yet asked for the `move` folder — validation precedes any mutation.
pub proof fn lemma_bad_path_aborts(m: Model, ev: Event, evs: Seq<Event>)
    requires
        wf(m),
        m.phase is StatSource || m.phase is StatBackup,
        ev matches Event::Stat { exists, is_dir } && !(exists && is_dir),
    ensures
        spec_step(m, ev).phase is Failed,
        spec_run(spec_step(m, ev), evs) == spec_step(m, ev),
        spec_step(m, ev).moved == m.moved,
        spec_step(m, ev).skipped == m.skipped,
        spec_step(m, ev).created == m.created,
{
    lemma_failed_is_final(spec_step(m, ev), evs);
}

/// When every extension folder the machine asks about already exists — as
/// on a second run over a filesystem the first run has already populated —
/// nothing is added to `created_folders`.
pub proof fn lemma_existing_folders_create_nothing(m: Model, evs: Seq<Event>)
    requires
        wf(m),
        !(m.phase is MakeExtDir),
        forall|i: int|
            0 <= i < evs.len() ==> (#[trigger] evs[i] matches Event::Found { exists } ==> exists),
    ensures
        spec_run(m, evs).created == m.created,
        !(spec_run(m, evs).phase is MakeExtDir),
    decreases evs.len(),
{
    if evs.len() > 0 {
        let m2 = spec_step(m, evs[0]);
        lemma_step_wf(m, evs[0]);
        assert(!(m2.phase is MakeExtDir));
        assert(m2.created == m.created);
        assert forall|i: int|
            0 <= i < evs.drop_first().len() implies (#[trigger] evs.drop_first()[i] matches Event::Found {
            exists,
        } ==> exists) by {
            assert(evs.drop_first()[i] == evs[i + 1]);
        }
        lemma_existing_folders_create_nothing(m2, evs.drop_first());
    }
}

/// The extension of the source file at index `i`.
pub open spec fn ext_at(sources: Seq<FileModel>, i: int) -> Seq<char> {
    match spec_extension(sources[i].name) {
        Some(x) => x,
        None => Seq::empty(),
    }
}

/// The `moved_files` entries still due for the backup files at or after
/// index `j` that match the source file at index `i`, assuming every copy
/// succeeds.
pub open spec fn planned_backups(
    sources: Seq<FileModel>,
    backups: Seq<FileModel>,
    i: int,
    j: int,
) -> Seq<Seq<char>>
    decreases backups.len() - j,
{
    if j >= backups.len() {
        Seq::empty()
    } else {
        let rest = planned_backups(sources, backups, i, j + 1);
        if spec_base_name(backups[j].name) == spec_base_name(sources[i].name) {
            seq![moved_entry(ext_at(sources, i), backups[j].name)] + rest
        } else {
            rest
        }
    }
}

/// The `moved_files` entries still due for the source files at or after
/// index `i` and their matching backups, assuming every copy succeeds.
pub open spec fn planned_files(sources: Seq<FileModel>, backups: Seq<FileModel>, i: int) -> Seq<
    Seq<char>,
>
    decreases sources.len() - i,
{
    if i >= sources.len() {
        Seq::empty()
    } else {
        let rest = planned_files(sources, backups, i + 1);
        if spec_extension(sources[i].name) is Some {
            seq![moved_entry(ext_at(sources, i), sources[i].name)] + planned_backups(
                sources,
                backups,
                i,
                0,
            ) + rest
        } else {
            rest
        }
    }
}

/// Whether the machine is past its scans: every decision left concerns
/// copying, and the source and backup listings no longer change.
pub open spec fn processing(m: Model) -> bool {
    m.phase is CheckDir || m.phase is MakeExtDir || m.phase is CopySource
        || m.phase is CopyBackup || m.phase is Done
}

/// The `moved_files` entries still due from the machine's present
/// position, assuming every remaining creation and copy succeeds.
pub open spec fn planned_rest(m: Model) -> Seq<Seq<char>> {
    if m.phase is Done {
        Seq::empty()
    } else if m.phase is CopyBackup {
        seq![moved_entry(cur_ext(m), m.backups[m.bi].name)] + planned_backups(
            m.sources,
            m.backups,
            m.si,
            m.bi + 1,
        ) + planned_files(m.sources, m.backups, m.si + 1)
    } else {
        seq![moved_entry(cur_ext(m), m.sources[m.si].name)] + planned_backups(
            m.sources,
            m.backups,
            m.si,
            0,
        ) + planned_files(m.sources, m.backups, m.si + 1)
    }
}

/// A trace in which every directory creation and every copy succeeds.
pub open spec fn all_success(evs: Seq<Event>) -> bool {
    forall|i: int|
        0 <= i < evs.len() ==> ((#[trigger] evs[i] matches Event::Made { ok } ==> ok) && (
        evs[i] matches Event::Copied { ok } ==> ok))
}

/// A source file whose extension folder cannot be created is abandoned
/// with exactly one skip note: nothing is moved or created for it or for
/// its matching backups, and the run continues at the next source file
/// exactly as if this one had already been handled.
pub proof fn lemma_mkdir_failure_abandons_file(m: Model, evs: Seq<Event>)
    requires
        wf(m),
        m.phase is MakeExtDir,
    ensures
        spec_step(m, Event::Made { ok: false }).skipped == m.skipped.push(skip_mkdir(cur_ext(m))),
        spec_step(m, Event::Made { ok: false }).moved == m.moved,
        spec_step(m, Event::Made { ok: false }).created == m.created,
        spec_run(m, seq![Event::Made { ok: false }] + evs) == spec_run(
            spec_enter_file(
                Model { skipped: m.skipped.push(skip_mkdir(cur_ext(m))), ..m },
                m.si + 1,
            ),
            evs,
        ),
{
    let e = Event::Made { ok: false };
    let tr = seq![e] + evs;
    assert(tr[0] == e);
    assert(tr.drop_first() =~= evs);
}

/// Moving on to a file leaves exactly the planned entries of the files at
/// or after it.
proof fn lemma_enter_file_planned(m: Model, i: int)
    requires
        0 <= i <= m.sources.len(),
    ensures
        planned_rest(spec_enter_file(m, i)) == planned_files(m.sources, m.backups, i),
        processing(spec_enter_file(m, i)),
    decreases m.sources.len() - i,
{
    if i >= m.sources.len() {
    } else if spec_extension(m.sources[i].name) is Some {
    } else {
        assert(next_file_index(m.sources, i) == next_file_index(m.sources, i + 1));
        lemma_enter_file_planned(m, i + 1);
    }
}

/// Moving on to a backup leaves exactly the planned entries of the
/// matching backups at or after it, then of the remaining files.
proof fn lemma_enter_backup_planned(m: Model, j: int)
    requires
        0 <= j <= m.backups.len(),
        0 <= m.si < m.sources.len(),
        spec_extension(m.sources[m.si].name) is Some,
    ensures
        planned_rest(spec_enter_backup(m, j)) == planned_backups(m.sources, m.backups, m.si, j)
            + planned_files(m.sources, m.backups, m.si + 1),
        processing(spec_enter_backup(m, j)),
    decreases m.backups.len() - j,
{
    let base = spec_base_name(m.sources[m.si].name);
    if j >= m.backups.len() {
        lemma_enter_file_planned(m, m.si + 1);
        assert(planned_backups(m.sources, m.backups, m.si, j) =~= Seq::<Seq<char>>::empty());
        assert(Seq::<Seq<char>>::empty() + planned_files(m.sources, m.backups, m.si + 1)
            =~= planned_files(m.sources, m.backups, m.si + 1));
    } else if spec_base_name(m.backups[j].name) == base {
        assert(next_backup_index(m.backups, base, j) == j);
    } else {
        assert(next_backup_index(m.backups, base, j) == next_backup_index(m.backups, base, j + 1));
        assert(spec_enter_backup(m, j) == spec_enter_backup(m, j + 1));
        lemma_enter_backup_planned(m, j + 1);
    }
}

/// The main law of a successful run: from any position past the scans, a
/// run in which every creation and copy succeeds and that reaches the end
/// appends to `moved_files` exactly the planned entries — one for each
/// remaining source file and one for each of its matching backups — and
/// appends nothing to `skipped_files`. Two such runs over the same
/// listings therefore move exactly the same files.
pub proof fn lemma_success_run_moves_all(m: Model, evs: Seq<Event>)
    requires
        wf(m),
        processing(m),
        all_success(evs),
        spec_run(m, evs).phase is Done,
    ensures
        spec_run(m, evs).moved == m.moved + planned_rest(m),
        spec_run(m, evs).skipped == m.skipped,
    decreases evs.len(),
{
    if evs.len() == 0 {
        assert(m.phase is Done);
        assert(m.moved + planned_rest(m) =~= m.moved);
    } else {
        let ev = evs[0];
        let m2 = spec_step(m, ev);
        lemma_step_wf(m, ev);
        assert forall|i: int|
            0 <= i < evs.drop_first().len() implies ((#[trigger] evs.drop_first()[i] matches Event::Made {
            ok,
        } ==> ok) && (evs.drop_first()[i] matches Event::Copied { ok } ==> ok)) by {
            assert(evs.drop_first()[i] == evs[i + 1]);
        }
        match (m.phase, ev) {
            (Phase::CheckDir, Event::Found { exists }) => {
                assert(m2.moved + planned_rest(m2) == m.moved + planned_rest(m));
            },
            (Phase::MakeExtDir, Event::Made { ok }) => {
                assert(ok);
                assert(m2.moved + planned_rest(m2) == m.moved + planned_rest(m));
            },
            (Phase::CopySource, Event::Copied { ok }) => {
                assert(ok);
                let entry = moved_entry(cur_ext(m), m.sources[m.si].name);
                let mp = Model { moved: m.moved.push(entry), ..m };
                assert(m2 == spec_enter_backup(mp, 0));
                lemma_enter_backup_planned(mp, 0);
                assert(planned_rest(m2) == planned_backups(m.sources, m.backups, m.si, 0)
                    + planned_files(m.sources, m.backups, m.si + 1));
                assert(m2.moved + planned_rest(m2) =~= m.moved + planned_rest(m));
            },
            (Phase::CopyBackup, Event::Copied { ok }) => {
                assert(ok);
                let entry = moved_entry(cur_ext(m), m.backups[m.bi].name);
                let mp = Model { moved: m.moved.push(entry), ..m };
                assert(m2 == spec_enter_backup(mp, m.bi + 1));
                lemma_enter_backup_planned(mp, m.bi + 1);
                assert(planned_rest(m2) == planned_backups(m.sources, m.backups, m.si, m.bi + 1)
                    + planned_files(m.sources, m.backups, m.si + 1));
                assert(m2.moved + planned_rest(m2) =~= m.moved + planned_rest(m));
            },
            _ => {
                assert(m2 == m);
            },
        }
        assert(processing(m2));
        lemma_success_run_moves_all(m2, evs.drop_first());
    }
}

/// The law of a whole successful call, from its very first event: when both
/// folders validate, the `move` folder is created, the two folders are
/// scanned, and every later creation and copy succeeds, then a run that
/// reaches the end moves exactly the planned files — each kept source file
/// and each backup file matching it by base name — and skips nothing.
pub proof fn lemma_whole_successful_run(
    m: Model,
    src_entries: Vec<crate::scan::ScanEntry>,
    bak_entries: Vec<crate::scan::ScanEntry>,
    evs: Seq<Event>,
)
    requires
        wf(m),
        m.phase is StatSource,
        all_success(evs),
    ensures
        ({
            let tr = seq![
                (Event::Stat { exists: true, is_dir: true }),
                (Event::Stat { exists: true, is_dir: true }),
                (Event::Made { ok: true }),
                (Event::Scanned { entries: src_entries }),
                (Event::Scanned { entries: bak_entries }),
            ] + evs;
            let s = crate::scan::spec_collect(
                crate::scan::entries_view(src_entries@),
                m.source_exts,
            );
            let b = crate::scan::spec_collect(
                crate::scan::entries_view(bak_entries@),
                m.backup_exts,
            );
            spec_run(m, tr).phase is Done ==> (spec_run(m, tr).moved == m.moved + planned_files(
                s,
                b,
                0,
            ) && spec_run(m, tr).skipped == m.skipped)
        }),
{
    let e1 = Event::Stat { exists: true, is_dir: true };
    let e2 = Event::Stat { exists: true, is_dir: true };
    let e3 = Event::Made { ok: true };
    let e4 = Event::Scanned { entries: src_entries };
    let e5 = Event::Scanned { entries: bak_entries };
    let tr = seq![e1, e2, e3, e4, e5] + evs;
    let s = crate::scan::spec_collect(crate::scan::entries_view(src_entries@), m.source_exts);
    let b = crate::scan::spec_collect(crate::scan::entries_view(bak_entries@), m.backup_exts);

    let m1 = spec_step(m, e1);
    let m2 = spec_step(m1, e2);
    let m3 = spec_step(m2, e3);
    let m4 = spec_step(m3, e4);
    let m5 = spec_step(m4, e5);
    lemma_step_wf(m, e1);
    lemma_step_wf(m1, e2);
    lemma_step_wf(m2, e3);
    lemma_step_wf(m3, e4);
    lemma_step_wf(m4, e5);
    assert(m4.sources == s);
    assert(m5 == spec_enter_file(Model { backups: b, ..m4 }, 0));
    lemma_enter_file_planned(Model { backups: b, ..m4 }, 0);
    assert(planned_rest(m5) == planned_files(s, b, 0));

    assert(tr[0] == e1);
    let t1 = tr.drop_first();
    assert(t1 =~= seq![e2, e3, e4, e5] + evs);
    assert(spec_run(m, tr) == spec_run(m1, t1));
    assert(t1[0] == e2);
    let t2 = t1.drop_first();
    assert(t2 =~= seq![e3, e4, e5] + evs);
    assert(spec_run(m1, t1) == spec_run(m2, t2));
    assert(t2[0] == e3);
    let t3 = t2.drop_first();
    assert(t3 =~= seq![e4, e5] + evs);
    assert(spec_run(m2, t2) == spec_run(m3, t3));
    assert(t3[0] == e4);
    let t4 = t3.drop_first();
    assert(t4 =~= seq![e5] + evs);
    assert(spec_run(m3, t3) == spec_run(m4, t4));
    assert(t4[0] == e5);
    let t5 = t4.drop_first();
    assert(t5 =~= evs);
    assert(spec_run(m4, t4) == spec_run(m5, t5));
    assert(spec_run(m, tr) == spec_run(m5, evs));

    if spec_run(m, tr).phase is Done {
        lemma_success_run_moves_all(m5, evs);
    }
}

} // verus!
