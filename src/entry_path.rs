use vstd::prelude::*;

verus! {

/// A path below the target directory, as a sequence of components.
pub type PathModel = Seq<Seq<char>>;

/// Both separators that archive names use.
pub open spec fn is_separator(c: char) -> bool {
    c == '/' || c == '\\'
}

/// Scans a name left to right: the pieces closed by a separator so far, and
/// the piece still open after the last separator.
pub open spec fn scan_name(s: Seq<char>) -> (Seq<Seq<char>>, Seq<char>)
    decreases s.len(),
{
    if s.len() == 0 {
        (Seq::empty(), Seq::empty())
    } else {
        let prev = scan_name(s.drop_last());
        if is_separator(s.last()) {
            (prev.0.push(prev.1), Seq::empty())
        } else {
            (prev.0, prev.1.push(s.last()))
        }
    }
}

/// The pieces of a name between separators, empty pieces included.
pub open spec fn split_name(s: Seq<char>) -> Seq<Seq<char>> {
    scan_name(s).0.push(scan_name(s).1)
}

/// A piece that names an entry: not empty, not the current directory, not
/// the parent directory, and free of `:`, so that no piece can be read as a
/// drive prefix (`C:`) that replaces the directory it is joined to.
pub open spec fn keeps_piece(p: Seq<char>) -> bool {
    &&& p.len() > 0
    &&& p != seq!['.']
    &&& p != seq!['.', '.']
    &&& forall|i: int| 0 <= i < p.len() ==> #[trigger] p[i] != ':'
}

/// The pieces kept, in order.
pub open spec fn kept_pieces(pieces: Seq<Seq<char>>) -> Seq<Seq<char>>
    decreases pieces.len(),
{
    if pieces.len() == 0 {
        Seq::empty()
    } else {
        let rest = kept_pieces(pieces.drop_last());
        if keeps_piece(pieces.last()) {
            rest.push(pieces.last())
        } else {
            rest
        }
    }
}

/// Where an entry with the stored name `name` lands, relative to the target
/// directory: a leading separator, `.` and `..` pieces are dropped.
pub open spec fn sanitized_path(name: Seq<char>) -> PathModel {
    kept_pieces(split_name(name))
}

/// A component that can only name a child of the directory it is joined to.
pub open spec fn is_safe_component(c: Seq<char>) -> bool {
    &&& keeps_piece(c)
    &&& forall|i: int| 0 <= i < c.len() ==> !is_separator(#[trigger] c[i])
}

/// The abstract value of a list of path components.
pub open spec fn components_view(v: Seq<String>) -> PathModel {
    v.map_values(|s: String| s@)
}

/// Where an entry lands: the target directory's components followed by the
/// sanitized components of the entry's stored name.
pub open spec fn destination(target: PathModel, name: Seq<char>) -> PathModel {
    target + sanitized_path(name)
}

proof fn lemma_scan_has_no_separator(s: Seq<char>)
    ensures
        forall|j: int, k: int|
            0 <= j < scan_name(s).0.len() && 0 <= k < scan_name(s).0[j].len() ==> !is_separator(
                #[trigger] scan_name(s).0[j][k],
            ),
        forall|k: int| 0 <= k < scan_name(s).1.len() ==> !is_separator(#[trigger] scan_name(s).1[k]),
    decreases s.len(),
{
    if s.len() > 0 {
        lemma_scan_has_no_separator(s.drop_last());
        let prev = scan_name(s.drop_last());
        if !is_separator(s.last()) {
            assert forall|k: int| 0 <= k < scan_name(s).1.len() implies !is_separator(
                #[trigger] scan_name(s).1[k],
            ) by {
                if k < prev.1.len() {
                    assert(scan_name(s).1[k] == prev.1[k]);
                }
            }
        } else {
            assert forall|j: int, k: int|
                0 <= j < scan_name(s).0.len() && 0 <= k < scan_name(s).0[j].len() implies !is_separator(
                #[trigger] scan_name(s).0[j][k],
            ) by {
                if j < prev.0.len() {
                    assert(scan_name(s).0[j] == prev.0[j]);
                } else {
                    assert(scan_name(s).0[j] == prev.1);
                }
            }
        }
    }
}

proof fn lemma_kept_pieces_come_from(pieces: Seq<Seq<char>>)
    ensures
        forall|j: int|
            0 <= j < kept_pieces(pieces).len() ==> keeps_piece(#[trigger] kept_pieces(pieces)[j])
                && exists|m: int| 0 <= m < pieces.len() && pieces[m] == kept_pieces(pieces)[j],
    decreases pieces.len(),
{
    if pieces.len() > 0 {
        let init = pieces.drop_last();
        lemma_kept_pieces_come_from(init);
        assert forall|j: int| 0 <= j < kept_pieces(pieces).len() implies keeps_piece(
            #[trigger] kept_pieces(pieces)[j],
        ) && exists|m: int| 0 <= m < pieces.len() && pieces[m] == kept_pieces(pieces)[j] by {
            if j < kept_pieces(init).len() {
                assert(kept_pieces(pieces)[j] == kept_pieces(init)[j]);
                let m = choose|m: int| 0 <= m < init.len() && init[m] == kept_pieces(init)[j];
                assert(pieces[m] == init[m]);
            } else {
                assert(pieces[pieces.len() - 1] == kept_pieces(pieces)[j]);
            }
        }
    }
}

/// Every component that sanitizing a stored name yields is safe: not empty,
/// neither `.` nor `..`, and free of separators.
pub proof fn lemma_sanitized_components_safe(name: Seq<char>)
    ensures
        forall|j: int|
            0 <= j < sanitized_path(name).len() ==> is_safe_component(
                #[trigger] sanitized_path(name)[j],
            ),
{
    lemma_scan_has_no_separator(name);
    let pieces = split_name(name);
    lemma_kept_pieces_come_from(pieces);
    assert forall|j: int| 0 <= j < sanitized_path(name).len() implies is_safe_component(
        #[trigger] sanitized_path(name)[j],
    ) by {
        let m = choose|m: int| 0 <= m < pieces.len() && pieces[m] == sanitized_path(name)[j];
        if m < scan_name(name).0.len() {
            assert(pieces[m] == scan_name(name).0[m]);
        } else {
            assert(pieces[m] == scan_name(name).1);
        }
    }
}

/// Whatever an entry's stored name holds (`..` pieces, a leading separator),
/// its destination starts with the target directory, and each component
/// added below it names a child, so the entry cannot land outside the target.
pub proof fn lemma_destination_within_target(target: PathModel, name: Seq<char>)
    ensures
        destination(target, name).len() >= target.len(),
        destination(target, name).take(target.len() as int) == target,
        forall|j: int|
            target.len() <= j < destination(target, name).len() ==> is_safe_component(
                #[trigger] destination(target, name)[j],
            ),
{
    lemma_sanitized_components_safe(name);
    let d = destination(target, name);
    assert(d.take(target.len() as int) =~= target);
    assert forall|j: int| target.len() <= j < d.len() implies is_safe_component(#[trigger] d[j]) by {
        assert(d[j] == sanitized_path(name)[j - target.len()]);
    }
}

/// Relies on `String::push`: appends one character at the end.
#[verifier::external_body]
fn push_char(s: &mut String, c: char)
    ensures
        final(s)@ == old(s)@.push(c),
{
    s.push(c)
}

fn is_separator_char(c: char) -> (r: bool)
    ensures
        r == is_separator(c),
{
    c == '/' || c == '\\'
}

fn keeps_piece_exec(p: &String) -> (r: bool)
    ensures
        r == keeps_piece(p@),
{
    let s = p.as_str();
    let n = s.unicode_len();
    let mut i: usize = 0;
    while i < n
        invariant
            n == p@.len(),
            s@ == p@,
            i <= n,
            forall|k: int| 0 <= k < i ==> #[trigger] p@[k] != ':',
        decreases n - i,
    {
        if s.get_char(i) == ':' {
            return false;
        }
        i = i + 1;
    }
    if n == 0 {
        false
    } else if n == 1 {
        let c = s.get_char(0);
        if c == '.' {
            assert(p@ =~= seq!['.']);
            false
        } else {
            true
        }
    } else if n == 2 {
        let c0 = s.get_char(0);
        let c1 = s.get_char(1);
        if c0 == '.' && c1 == '.' {
            assert(p@ =~= seq!['.', '.']);
            false
        } else {
            true
        }
    } else {
        true
    }
}

/// Splits an archive entry's stored name into the components under which it
/// is recreated below the target directory.
pub fn sanitize_entry_name(name: &str) -> (r: Vec<String>)
    ensures
        components_view(r@) == sanitized_path(name@),
{
    let n = name.unicode_len();
    let mut comps: Vec<String> = Vec::new();
    let mut cur = String::new();
    let mut i: usize = 0;
    while i < n
        invariant
            n == name@.len(),
            i <= n,
            components_view(comps@) == kept_pieces(scan_name(name@.take(i as int)).0),
            cur@ == scan_name(name@.take(i as int)).1,
        decreases n - i,
    {
        let c = name.get_char(i);
        let ghost prefix = name@.take(i as int);
        assert(name@.take(i + 1).drop_last() =~= prefix);
        assert(name@.take(i + 1).last() == c);
        let ghost pieces = scan_name(prefix).0;
        if is_separator_char(c) {
            assert(pieces.push(cur@).drop_last() =~= pieces);
            let keep = keeps_piece_exec(&cur);
            let piece = cur;
            if keep {
                let ghost before = comps@;
                comps.push(piece);
                assert(components_view(comps@) =~= components_view(before).push(piece@));
            }
            cur = String::new();
        } else {
            push_char(&mut cur, c);
        }
        i = i + 1;
    }
    assert(name@.take(n as int) =~= name@);
    assert(split_name(name@).drop_last() =~= scan_name(name@).0);
    if keeps_piece_exec(&cur) {
        let ghost before = comps@;
        let ghost last = cur@;
        comps.push(cur);
        assert(components_view(comps@) =~= components_view(before).push(last));
    }
    comps
}

} // verus!
