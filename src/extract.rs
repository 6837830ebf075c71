use vstd::prelude::*;

use crate::archive::{archive_model, archive_reads, entries_model, read_archive, ArchiveEntry};
use crate::entry_path::{
    components_view, is_safe_component, lemma_sanitized_components_safe, sanitize_entry_name,
    sanitized_path, PathModel,
};
use crate::error::PipelineError;

verus! {

/// One filesystem step of an extraction, on a path relative to the target
/// directory.
#[derive(Debug)]
pub enum ExtractAction {
    /// Create the directory together with every missing ancestor.
    CreateDirAll(Vec<String>),
    /// Create (or truncate) the file and write these bytes into it.
    WriteFile(Vec<String>, Vec<u8>),
}

/// The abstract value of an [`ExtractAction`].
pub enum Step {
    /// The directory and its ancestors exist afterwards.
    MakeDir(PathModel),
    /// The file holds exactly these bytes afterwards.
    Write(PathModel, Seq<u8>),
}

impl View for ExtractAction {
    type V = Step;

    open spec fn view(&self) -> Step {
        match self {
            ExtractAction::CreateDirAll(p) => Step::MakeDir(components_view(p@)),
            ExtractAction::WriteFile(p, d) => Step::Write(components_view(p@), d@),
        }
    }
}

/// The abstract value of a list of actions.
pub open spec fn steps_view(v: Seq<ExtractAction>) -> Seq<Step> {
    v.map_values(|a: ExtractAction| a@)
}

/// The directory that holds a path (the target itself for a top-level one).
pub open spec fn parent_of(p: PathModel) -> PathModel {
    if p.len() > 0 {
        p.drop_last()
    } else {
        p
    }
}

/// An entry that cannot be extracted: a file whose name sanitizes to nothing.
pub open spec fn entry_fails(e: (Seq<char>, bool, Seq<u8>)) -> bool {
    !e.1 && sanitized_path(e.0).len() == 0
}

/// The two steps of one entry: make its parent directory chain, then make
/// the directory or write the file.
pub open spec fn entry_steps(e: (Seq<char>, bool, Seq<u8>)) -> Seq<Step> {
    let p = sanitized_path(e.0);
    if e.1 {
        seq![Step::MakeDir(parent_of(p)), Step::MakeDir(p)]
    } else {
        seq![Step::MakeDir(parent_of(p)), Step::Write(p, e.2)]
    }
}

/// The steps of all entries, in stored order.
pub open spec fn plan_spec(es: Seq<(Seq<char>, bool, Seq<u8>)>) -> Seq<Step>
    decreases es.len(),
{
    if es.len() == 0 {
        Seq::empty()
    } else {
        plan_spec(es.drop_last()) + entry_steps(es.last())
    }
}

/// Whether some entry of `es` cannot be extracted.
pub open spec fn some_entry_fails(es: Seq<(Seq<char>, bool, Seq<u8>)>) -> bool {
    exists|k: int| 0 <= k < es.len() && entry_fails(#[trigger] es[k])
}

/// The files that a run of steps leaves behind: a later write to a path
/// replaces an earlier one.
pub open spec fn files_after(steps: Seq<Step>) -> Map<PathModel, Seq<u8>>
    decreases steps.len(),
{
    if steps.len() == 0 {
        Map::empty()
    } else {
        let m = files_after(steps.drop_last());
        match steps.last() {
            Step::Write(p, d) => m.insert(p, d),
            Step::MakeDir(_) => m,
        }
    }
}

/// The directories that a run of steps creates (each with its ancestors).
pub open spec fn dirs_after(steps: Seq<Step>) -> Set<PathModel>
    decreases steps.len(),
{
    if steps.len() == 0 {
        Set::empty()
    } else {
        let d = dirs_after(steps.drop_last());
        match steps.last() {
            Step::Write(_, _) => d,
            Step::MakeDir(p) => d.insert(p),
        }
    }
}

/// The files an archive stores: each file entry's sanitized path with its
/// bytes, a later entry replacing an earlier one of the same path.
pub open spec fn stored_files(es: Seq<(Seq<char>, bool, Seq<u8>)>) -> Map<PathModel, Seq<u8>>
    decreases es.len(),
{
    if es.len() == 0 {
        Map::empty()
    } else {
        let m = stored_files(es.drop_last());
        let e = es.last();
        if e.1 {
            m
        } else {
            m.insert(sanitized_path(e.0), e.2)
        }
    }
}

/// The directories an archive calls for: each directory entry's sanitized
/// path, and the directory holding each entry.
pub open spec fn stored_dirs(es: Seq<(Seq<char>, bool, Seq<u8>)>) -> Set<PathModel>
    decreases es.len(),
{
    if es.len() == 0 {
        Set::empty()
    } else {
        let d = stored_dirs(es.drop_last());
        let p = sanitized_path(es.last().0);
        if es.last().1 {
            d.insert(parent_of(p)).insert(p)
        } else {
            d.insert(parent_of(p))
        }
    }
}

/// The plan has two steps per entry, in stored order: the first makes the
/// directory that holds the entry (with all its ancestors), the second makes
/// the entry's directory or writes its file. So every file's directory
/// exists before the file is written, and every directory entry yields a
/// directory even when nothing is stored in it, whatever the stored order.
pub proof fn lemma_plan_layout(es: Seq<(Seq<char>, bool, Seq<u8>)>)
    ensures
        plan_spec(es).len() == 2 * es.len(),
        forall|i: int|
            0 <= i < es.len() ==> #[trigger] plan_spec(es)[2 * i] == Step::MakeDir(
                parent_of(sanitized_path(es[i].0)),
            ) && plan_spec(es)[2 * i + 1] == (if es[i].1 {
                Step::MakeDir(sanitized_path(es[i].0))
            } else {
                Step::Write(sanitized_path(es[i].0), es[i].2)
            }),
    decreases es.len(),
{
    if es.len() > 0 {
        let init = es.drop_last();
        lemma_plan_layout(init);
        assert forall|i: int| 0 <= i < es.len() implies #[trigger] plan_spec(es)[2 * i]
            == Step::MakeDir(parent_of(sanitized_path(es[i].0))) && plan_spec(es)[2 * i + 1] == (
        if es[i].1 {
            Step::MakeDir(sanitized_path(es[i].0))
        } else {
            Step::Write(sanitized_path(es[i].0), es[i].2)
        }) by {
            if i < init.len() {
                assert(es[i] == init[i]);
                assert(plan_spec(es)[2 * i] == plan_spec(init)[2 * i]);
                assert(plan_spec(es)[2 * i + 1] == plan_spec(init)[2 * i + 1]);
            }
        }
    }
}

proof fn lemma_after_two_steps(s: Seq<Step>, x: Step, y: Step)
    ensures
        (s + seq![x, y]).drop_last() == s + seq![x],
        (s + seq![x]).drop_last() == s,
        (s + seq![x, y]).last() == y,
        (s + seq![x]).last() == x,
{
    assert((s + seq![x, y]).drop_last() =~= s + seq![x]);
    assert((s + seq![x]).drop_last() =~= s);
}

/// Extracting an archive reproduces exactly what it stores: the files left
/// behind are the stored files, at their sanitized paths and with their
/// bytes, and the directories made are those that the entries call for.
pub proof fn lemma_extraction_reproduces_archive(es: Seq<(Seq<char>, bool, Seq<u8>)>)
    ensures
        files_after(plan_spec(es)) == stored_files(es),
        dirs_after(plan_spec(es)) == stored_dirs(es),
    decreases es.len(),
{
    if es.len() > 0 {
        let init = es.drop_last();
        lemma_extraction_reproduces_archive(init);
        let e = es.last();
        let p = sanitized_path(e.0);
        let s = plan_spec(init);
        let x = Step::MakeDir(parent_of(p));
        let y = if e.1 {
            Step::MakeDir(p)
        } else {
            Step::Write(p, e.2)
        };
        assert(entry_steps(e) =~= seq![x, y]);
        assert(plan_spec(es) == s + seq![x, y]);
        lemma_after_two_steps(s, x, y);
        assert(files_after(s + seq![x]) == files_after(s));
        assert(dirs_after(s + seq![x]) == dirs_after(s).insert(parent_of(p)));
        if e.1 {
            assert(files_after(s + seq![x, y]) == files_after(s + seq![x]));
            assert(dirs_after(s + seq![x, y]) == dirs_after(s + seq![x]).insert(p));
        } else {
            assert(files_after(s + seq![x, y]) == files_after(s + seq![x]).insert(p, e.2));
            assert(dirs_after(s + seq![x, y]) == dirs_after(s + seq![x]));
        }
    }
}

/// The path, relative to the target directory, that a step acts on.
pub open spec fn step_path(st: Step) -> PathModel {
    match st {
        Step::MakeDir(p) => p,
        Step::Write(p, _) => p,
    }
}

/// Every step of an extraction acts below the target directory: each
/// component of its path is safe, whatever names the archive stores.
pub proof fn lemma_plan_stays_in_target(es: Seq<(Seq<char>, bool, Seq<u8>)>)
    ensures
        forall|k: int, j: int|
            0 <= k < plan_spec(es).len() && 0 <= j < step_path(plan_spec(es)[k]).len()
                ==> is_safe_component(#[trigger] step_path(plan_spec(es)[k])[j]),
{
    lemma_plan_layout(es);
    assert forall|k: int, j: int|
        0 <= k < plan_spec(es).len() && 0 <= j < step_path(plan_spec(es)[k]).len()
            implies is_safe_component(#[trigger] step_path(plan_spec(es)[k])[j]) by {
        let i = k / 2;
        let p = sanitized_path(es[i].0);
        lemma_sanitized_components_safe(es[i].0);
        assert(plan_spec(es)[2 * i] == Step::MakeDir(parent_of(p)));
        if k == 2 * i + 1 {
            assert(step_path(plan_spec(es)[k]) == p);
        } else {
            assert(k == 2 * i);
            if p.len() > 0 {
                assert(step_path(plan_spec(es)[k])[j] == p[j]);
            }
        }
    }
}

/// Computes the filesystem steps that recreate the entries below the target
/// directory, in the archive's stored order. A file entry whose name leaves
/// no component fails the whole extraction with `Path`.
pub fn plan_extraction(entries: &Vec<ArchiveEntry>) -> (r: Result<Vec<ExtractAction>, PipelineError>)
    ensures
        r is Err <==> some_entry_fails(entries_model(entries@)),
        r matches Err(e) ==> e == PipelineError::Path,
        r matches Ok(plan) ==> steps_view(plan@) == plan_spec(entries_model(entries@)),
{
    let ghost es = entries_model(entries@);
    let mut plan: Vec<ExtractAction> = Vec::new();
    let mut i: usize = 0;
    while i < entries.len()
        invariant
            es == entries_model(entries@),
            i <= entries@.len(),
            steps_view(plan@) == plan_spec(es.take(i as int)),
            forall|k: int| 0 <= k < i ==> !entry_fails(#[trigger] es[k]),
        decreases entries@.len() - i,
    {
        let e = &entries[i];
        assert(es[i as int] == e.model());
        let comps = sanitize_entry_name(e.name.as_str());
        if !e.is_dir && comps.len() == 0 {
            assert(entry_fails(es[i as int]));
            return Err(PipelineError::Path);
        }
        let mut parent = sanitize_entry_name(e.name.as_str());
        if parent.len() > 0 {
            parent.pop();
            assert(components_view(parent@) =~= parent_of(sanitized_path(e.name@)));
        }
        let ghost before = plan@;
        plan.push(ExtractAction::CreateDirAll(parent));
        if e.is_dir {
            plan.push(ExtractAction::CreateDirAll(comps));
        } else {
            let data = e.data.clone();
            assert(data@ =~= e.data@);
            plan.push(ExtractAction::WriteFile(comps, data));
        }
        assert(es.take(i + 1).drop_last() =~= es.take(i as int));
        assert(steps_view(plan@) =~= steps_view(before) + entry_steps(es[i as int]));
        i = i + 1;
    }
    assert(es.take(i as int) =~= es);
    Ok(plan)
}

/// The steps that extract the archive held in `bytes`: `InvalidArchive` when
/// the bytes cannot be read as one, `Path` when a stored file's name leaves
/// no component, else one pair of steps per stored entry.
pub fn extract_plan(bytes: Vec<u8>) -> (r: Result<Vec<ExtractAction>, PipelineError>)
    ensures
        r is Ok <==> archive_reads(bytes@) && !some_entry_fails(archive_model(bytes@)),
        r matches Err(PipelineError::InvalidArchive) <==> !archive_reads(bytes@),
        r matches Err(PipelineError::Path) <==> archive_reads(bytes@) && some_entry_fails(
            archive_model(bytes@),
        ),
        r matches Err(e) ==> e == PipelineError::InvalidArchive || e == PipelineError::Path,
        r matches Ok(plan) ==> steps_view(plan@) == plan_spec(archive_model(bytes@)),
{
    let entries = read_archive(bytes)?;
    plan_extraction(&entries)
}

} // verus!
