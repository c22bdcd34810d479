use vstd::prelude::*;
use vstd::string::StrSliceExecFns;
use vstd::string::StringExecFns;

use crate::encode::push_char;
use crate::errors::ShareError;

verus! {

/// One component of a filesystem path, as plain data: the portable name
/// logic reads nothing else of the host path type.
pub enum PathPart {
    /// A root marker: the leading separator of an absolute path.
    RootMarker,
    /// A current-directory marker.
    CurrentMarker,
    /// A parent-directory marker.
    ParentMarker,
    /// A plain name segment.
    Normal(String),
    /// A segment that is not representable as text.
    NonUnicode,
}

/// A plain name segment: nonempty, no embedded separator of either
/// convention, and not a current- or parent-directory marker spelled out
/// as a name.
pub open spec fn seg_chars_ok(s: Seq<char>) -> bool {
    &&& s.len() >= 1
    &&& !s.contains('/')
    &&& !s.contains('\\')
    &&& s != seq!['.']
    &&& s != seq!['.', '.']
}

/// Whether one component is acceptable. A root marker passes only when
/// the path need not be relative; markers and unrepresentable segments
/// never pass.
pub open spec fn part_ok(p: PathPart, must_be_relative: bool) -> bool {
    match p {
        PathPart::Normal(s) => seg_chars_ok(s@),
        PathPart::RootMarker => !must_be_relative,
        _ => false,
    }
}

pub open spec fn parts_ok(parts: Seq<PathPart>, must_be_relative: bool) -> bool {
    forall|i: int| 0 <= i < parts.len() ==> part_ok(parts[i], must_be_relative)
}

/// How many root markers a component sequence holds.
pub open spec fn root_count(parts: Seq<PathPart>) -> nat
    decreases parts.len(),
{
    if parts.len() == 0 {
        0
    } else {
        root_count(parts.drop_last()) + match parts.last() {
            PathPart::RootMarker => 1nat,
            _ => 0nat,
        }
    }
}

/// The plain name segments of a component sequence, in order.
pub open spec fn seg_seq(parts: Seq<PathPart>) -> Seq<Seq<char>>
    decreases parts.len(),
{
    if parts.len() == 0 {
        Seq::<Seq<char>>::empty()
    } else {
        let rest = seg_seq(parts.drop_last());
        match parts.last() {
            PathPart::Normal(s) => rest.push(s@),
            _ => rest,
        }
    }
}

/// `n` separator characters.
pub open spec fn slashes(n: nat) -> Seq<char>
    decreases n,
{
    if n == 0 {
        Seq::<char>::empty()
    } else {
        slashes((n - 1) as nat) + seq!['/']
    }
}

/// The segments joined with `/` between them.
pub open spec fn join_slash(xs: Seq<Seq<char>>) -> Seq<char>
    decreases xs.len(),
{
    if xs.len() == 0 {
        Seq::<char>::empty()
    } else if xs.len() == 1 {
        xs[0]
    } else {
        xs[0] + seq!['/'] + join_slash(xs.drop_first())
    }
}

/// The portable name of a component sequence: one leading separator per
/// root marker, then the name segments joined with `/`.
pub open spec fn canonical_str(parts: Seq<PathPart>) -> Seq<char> {
    slashes(root_count(parts)) + join_slash(seg_seq(parts))
}

/// The pieces of a name cut at every `/`. Cutting the empty name gives
/// one empty piece, so the result is never empty.
pub open spec fn split_slash(s: Seq<char>) -> Seq<Seq<char>>
    decreases s.len(),
{
    if s.len() == 0 {
        seq![Seq::<char>::empty()]
    } else {
        let rest = split_slash(s.drop_first());
        if s[0] == '/' {
            seq![Seq::<char>::empty()] + rest
        } else {
            seq![seq![s[0]] + rest[0]] + rest.drop_first()
        }
    }
}

pub proof fn lemma_split_nonempty(s: Seq<char>)
    ensures
        split_slash(s).len() >= 1,
    decreases s.len(),
{
    if s.len() > 0 {
        lemma_split_nonempty(s.drop_first());
    }
}

/// Joining after a push appends the new segment behind one separator.
pub proof fn lemma_join_push(xs: Seq<Seq<char>>, y: Seq<char>)
    ensures
        xs.len() == 0 ==> join_slash(xs.push(y)) == y,
        xs.len() >= 1 ==> join_slash(xs.push(y)) == join_slash(xs) + seq!['/'] + y,
    decreases xs.len(),
{
    if xs.len() == 0 {
        assert(xs.push(y)[0] == y);
    } else if xs.len() == 1 {
        assert(xs.push(y).drop_first() =~= seq![y]);
        assert(join_slash(seq![y]) == y);
        assert(xs.push(y)[0] == xs[0]);
    } else {
        lemma_join_push(xs.drop_first(), y);
        assert(xs.push(y).drop_first() =~= xs.drop_first().push(y));
        assert(xs.push(y)[0] == xs[0]);
        assert(xs[0] + seq!['/'] + (join_slash(xs.drop_first()) + seq!['/'] + y) =~= (xs[0]
            + seq!['/'] + join_slash(xs.drop_first())) + seq!['/'] + y);
    }
}

/// A name without separators splits into exactly itself.
pub proof fn lemma_split_noslash(s: Seq<char>)
    requires
        !s.contains('/'),
    ensures
        split_slash(s) == seq![s],
    decreases s.len(),
{
    if s.len() == 0 {
        assert(s =~= Seq::<char>::empty());
        assert(seq![Seq::<char>::empty()] =~= seq![s]);
    } else {
        assert(s[0] != '/');
        assert(!s.drop_first().contains('/')) by {
            if s.drop_first().contains('/') {
                let j = choose|j: int| 0 <= j < s.drop_first().len() && s.drop_first()[j] == '/';
                assert(s[j + 1] == '/');
            }
        }
        lemma_split_noslash(s.drop_first());
        assert(seq![s[0]] + s.drop_first() =~= s);
        assert(seq![s.drop_first()].drop_first() =~= Seq::<Seq<char>>::empty());
        assert(split_slash(s) =~= seq![s]);
    }
}

/// Splitting a separator-free prefix, one separator, and a remainder cuts
/// exactly at that separator.
pub proof fn lemma_split_concat(a: Seq<char>, b: Seq<char>)
    requires
        !a.contains('/'),
    ensures
        split_slash(a + seq!['/'] + b) == seq![a] + split_slash(b),
    decreases a.len(),
{
    lemma_split_nonempty(b);
    if a.len() == 0 {
        assert(a =~= Seq::<char>::empty());
        let s = a + seq!['/'] + b;
        assert(s =~= seq!['/'] + b);
        assert(s[0] == '/');
        assert(s.drop_first() =~= b);
        assert(split_slash(s) =~= seq![a] + split_slash(b));
    } else {
        assert(a[0] != '/');
        assert(!a.drop_first().contains('/')) by {
            if a.drop_first().contains('/') {
                let j = choose|j: int| 0 <= j < a.drop_first().len() && a.drop_first()[j] == '/';
                assert(a[j + 1] == '/');
            }
        }
        lemma_split_concat(a.drop_first(), b);
        let s = a + seq!['/'] + b;
        assert(s.len() > 0);
        assert(s[0] == a[0]);
        assert(s.drop_first() =~= a.drop_first() + seq!['/'] + b);
        let rest = split_slash(a.drop_first() + seq!['/'] + b);
        assert(rest == seq![a.drop_first()] + split_slash(b));
        assert(rest[0] == a.drop_first());
        assert(rest.drop_first() =~= split_slash(b));
        assert(seq![a[0]] + a.drop_first() =~= a);
        assert(split_slash(s) =~= seq![a] + split_slash(b));
    }
}

/// Checks that a string is a plain name segment.
pub fn check_segment(s: &str) -> (b: bool)
    ensures
        b == seg_chars_ok(s@),
{
    let n = s.unicode_len();
    if n == 0 {
        return false;
    }
    if n == 1 {
        let c0 = s.get_char(0);
        if c0 == '.' {
            proof {
                assert(s@ =~= seq!['.']);
            }
            return false;
        }
        proof {
            assert(s@[0] != '.');
        }
    }
    if n == 2 {
        let c0 = s.get_char(0);
        if c0 == '.' {
            let c1 = s.get_char(1);
            if c1 == '.' {
                proof {
                    assert(s@ =~= seq!['.', '.']);
                }
                return false;
            }
            proof {
                assert(s@[1] != '.');
            }
        } else {
            proof {
                assert(s@[0] != '.');
            }
        }
    }
    proof {
        assert(s@ != seq!['.']) by {
            if s@ == seq!['.'] {
                assert(s@.len() == 1);
                assert(s@[0] == '.');
            }
        }
        assert(s@ != seq!['.', '.']) by {
            if s@ == seq!['.', '.'] {
                assert(s@.len() == 2);
                assert(s@[0] == '.');
                assert(s@[1] == '.');
            }
        }
    }
    let mut i: usize = 0;
    while i < n
        invariant
            i <= n,
            n == s@.len(),
            forall|j: int| 0 <= j < i ==> s@[j] != '/' && s@[j] != '\\',
            s@ != seq!['.'],
            s@ != seq!['.', '.'],
        decreases n - i,
    {
        let c = s.get_char(i);
        if c == '/' || c == '\\' {
            proof {
                assert(s@.contains(c));
            }
            return false;
        }
        i += 1;
    }
    proof {
        assert(!s@.contains('/')) by {
            if s@.contains('/') {
                let j = choose|j: int| 0 <= j < s@.len() && s@[j] == '/';
            }
        }
        assert(!s@.contains('\\')) by {
            if s@.contains('\\') {
                let j = choose|j: int| 0 <= j < s@.len() && s@[j] == '\\';
            }
        }
    }
    true
}

/// Rejects a collection entry name piece that is not a plain segment.
pub fn validate_path_component(component: &str) -> (r: Result<(), ShareError>)
    ensures
        (r is Ok) == seg_chars_ok(component@),
        r is Err ==> r == Err::<(), ShareError>(ShareError::InvalidPath),
{
    if check_segment(component) {
        Ok(())
    } else {
        Err(ShareError::InvalidPath)
    }
}

/// Turns an already canonical component sequence into a portable
/// `/`-separated name.
///
/// With `must_be_relative` every root marker is rejected; otherwise each
/// one contributes a leading separator. Current- and parent-directory
/// markers, segments with an embedded separator of either convention,
/// and unrepresentable segments always fail with `InvalidPath`.
pub fn canonicalized_path_to_string(parts: &Vec<PathPart>, must_be_relative: bool) -> (r: Result<
    String,
    ShareError,
>)
    ensures
        (r is Ok) == parts_ok(parts@, must_be_relative),
        r matches Ok(s) ==> s@ == canonical_str(parts@),
        r is Err ==> r == Err::<String, ShareError>(ShareError::InvalidPath),
{
    let ghost pseq = parts@;
    let mut segs: Vec<String> = Vec::new();
    let mut prefix: String = String::new();
    let mut i: usize = 0;
    while i < parts.len()
        invariant
            i <= pseq.len(),
            parts@ == pseq,
            forall|j: int| 0 <= j < i ==> part_ok(pseq[j], must_be_relative),
            segs@.map_values(|t: String| t@) == seg_seq(pseq.take(i as int)),
            prefix@ == slashes(root_count(pseq.take(i as int))),
        decreases pseq.len() - i,
    {
        let ghost segs_before = segs@.map_values(|t: String| t@);
        match &parts[i] {
            PathPart::Normal(s) => {
                if !check_segment(s.as_str()) {
                    proof {
                        assert(!part_ok(pseq[i as int], must_be_relative));
                    }
                    return Err(ShareError::InvalidPath);
                }
                segs.push(s.clone());
            },
            PathPart::RootMarker => {
                if must_be_relative {
                    proof {
                        assert(!part_ok(pseq[i as int], must_be_relative));
                    }
                    return Err(ShareError::InvalidPath);
                }
                proof {
                    reveal_strlit("/");
                    assert("/"@ =~= seq!['/']);
                }
                prefix.append("/");
            },
            PathPart::CurrentMarker => {
                proof {
                    assert(!part_ok(pseq[i as int], must_be_relative));
                }
                return Err(ShareError::InvalidPath);
            },
            PathPart::ParentMarker => {
                proof {
                    assert(!part_ok(pseq[i as int], must_be_relative));
                }
                return Err(ShareError::InvalidPath);
            },
            PathPart::NonUnicode => {
                proof {
                    assert(!part_ok(pseq[i as int], must_be_relative));
                }
                return Err(ShareError::InvalidPath);
            },
        }
        proof {
            assert(pseq.take(i as int + 1).drop_last() =~= pseq.take(i as int));
            assert(pseq.take(i as int + 1).last() == pseq[i as int]);
            assert(segs@.map_values(|t: String| t@) =~= seg_seq(pseq.take(i as int + 1)));
        }
        i += 1;
    }
    proof {
        assert(pseq.take(pseq.len() as int) =~= pseq);
    }
    let ghost rc = root_count(pseq);
    let ghost names = seg_seq(pseq);
    let mut out = prefix;
    let mut k: usize = 0;
    while k < segs.len()
        invariant
            k <= segs@.len(),
            segs@.map_values(|t: String| t@) == names,
            names == seg_seq(pseq),
            rc == root_count(pseq),
            out@ == slashes(rc) + join_slash(names.take(k as int)),
        decreases segs@.len() - k,
    {
        if k > 0 {
            proof {
                reveal_strlit("/");
                assert("/"@ =~= seq!['/']);
            }
            out.append("/");
        }
        let piece = &segs[k];
        out.append(piece.as_str());
        proof {
            assert(names[k as int] == piece@);
            assert(names.take(k as int + 1) =~= names.take(k as int).push(names[k as int]));
            lemma_join_push(names.take(k as int), names[k as int]);
            if k == 0 {
                assert(names.take(0int) =~= Seq::<Seq<char>>::empty());
                assert(slashes(rc) + Seq::<char>::empty() =~= slashes(rc));
                assert((slashes(rc) + Seq::<char>::empty()) + piece@ =~= slashes(rc) + piece@);
            } else {
                assert((slashes(rc) + join_slash(names.take(k as int)) + seq!['/']) + piece@ =~= slashes(
                    rc,
                ) + (join_slash(names.take(k as int)) + seq!['/'] + piece@));
            }
        }
        k += 1;
    }
    proof {
        assert(names.take(segs@.len() as int) =~= names);
        if segs@.len() == 0 {
            assert(slashes(rc) + join_slash(names) =~= slashes(rc));
        }
    }
    Ok(out)
}

/// Cuts a name at every `/`.
pub fn split_name(name: &str) -> (r: Vec<String>)
    ensures
        r@.map_values(|t: String| t@) == split_slash(name@),
{
    let n = name.unicode_len();
    let mut done: Vec<String> = Vec::new();
    let mut cur: String = String::new();
    let mut i: usize = 0;
    proof {
        lemma_split_nonempty(name@);
        assert(name@.skip(0) =~= name@);
        assert(Seq::<char>::empty() + split_slash(name@)[0] =~= split_slash(name@)[0]);
        assert(prepend_first(Seq::<char>::empty(), split_slash(name@)) =~~= split_slash(name@));
        assert(done@.map_values(|t: String| t@) =~= Seq::<Seq<char>>::empty());
        assert(Seq::<Seq<char>>::empty() + split_slash(name@) =~= split_slash(name@));
    }
    while i < n
        invariant
            i <= n,
            n == name@.len(),
            split_slash(name@) == done@.map_values(|t: String| t@) + prepend_first(
                cur@,
                split_slash(name@.skip(i as int)),
            ),
        decreases n - i,
    {
        let ghost dmap = done@.map_values(|t: String| t@);
        let ghost rest = split_slash(name@.skip(i as int + 1));
        proof {
            lemma_split_nonempty(name@.skip(i as int + 1));
        }
        let c = name.get_char(i);
        proof {
            let s = name@.skip(i as int);
            assert(s.len() > 0);
            assert(s[0] == c);
            assert(s.drop_first() =~= name@.skip(i as int + 1));
            assert(split_slash(s.drop_first()) == rest);
        }
        if c == '/' {
            proof {
                let s = name@.skip(i as int);
                assert(split_slash(s) == seq![Seq::<char>::empty()] + rest);
                assert(cur@ + (seq![Seq::<char>::empty()] + rest)[0] =~= cur@);
                assert((seq![Seq::<char>::empty()] + rest).drop_first() =~= rest);
                assert(prepend_first(cur@, split_slash(s)) =~~= seq![cur@] + rest);
            }
            let ghost cv = cur@;
            done.push(cur);
            cur = String::new();
            proof {
                assert(done@.map_values(|t: String| t@) =~= dmap.push(cv));
                assert(Seq::<char>::empty() + rest[0] =~= rest[0]);
                assert(prepend_first(Seq::<char>::empty(), rest) =~~= rest);
                assert(dmap.push(cv) + rest =~= dmap + (seq![cv] + rest));
                assert(split_slash(name@) == done@.map_values(|t: String| t@) + prepend_first(
                    cur@,
                    split_slash(name@.skip(i as int + 1)),
                ));
            }
        } else {
            proof {
                let s = name@.skip(i as int);
                assert(split_slash(s) == seq![seq![c] + rest[0]] + rest.drop_first());
                assert(cur@ + (seq![c] + rest[0]) =~= cur@.push(c) + rest[0]);
                assert(prepend_first(cur@, split_slash(s)) =~~= prepend_first(cur@.push(c), rest));
            }
            push_char(&mut cur, c);
        }
        i += 1;
    }
    proof {
        assert(name@.skip(n as int) =~= Seq::<char>::empty());
        assert(split_slash(Seq::<char>::empty()) == seq![Seq::<char>::empty()]);
        assert(cur@ + Seq::<char>::empty() =~= cur@);
        assert(seq![Seq::<char>::empty()].drop_first() =~= Seq::<Seq<char>>::empty());
        assert(prepend_first(cur@, split_slash(Seq::<char>::empty())) =~~= seq![cur@]);
    }
    let ghost dmap = done@.map_values(|t: String| t@);
    let ghost cv = cur@;
    done.push(cur);
    proof {
        assert(done@.map_values(|t: String| t@) =~= dmap.push(cv));
        assert(dmap.push(cv) =~= dmap + seq![cv]);
        assert(done@.map_values(|t: String| t@) == split_slash(name@));
    }
    done
}

/// The first piece of `xs` with `c` put in front of it.
pub open spec fn prepend_first(c: Seq<char>, xs: Seq<Seq<char>>) -> Seq<Seq<char>> {
    seq![c + xs[0]] + xs.drop_first()
}

/// Composes the validated destination path of one collection entry:
/// every piece of the name must be a plain segment, and the result is
/// the export root, a separator, and the name.
pub fn get_export_path(root: &str, name: &str) -> (r: Result<String, ShareError>)
    ensures
        (r is Ok) == (forall|i: int|
            0 <= i < split_slash(name@).len() ==> seg_chars_ok(#[trigger] split_slash(name@)[i])),
        r matches Ok(p) ==> p@ == root@ + seq!['/'] + name@,
        r is Err ==> r == Err::<String, ShareError>(ShareError::InvalidPath),
{
    let pieces = split_name(name);
    let ghost sp = split_slash(name@);
    let n = pieces.len();
    let mut i: usize = 0;
    while i < n
        invariant
            i <= n,
            n == sp.len(),
            sp == split_slash(name@),
            pieces@.map_values(|t: String| t@) == sp,
            forall|j: int| 0 <= j < i ==> seg_chars_ok(#[trigger] sp[j]),
        decreases n - i,
    {
        let piece = &pieces[i];
        if !check_segment(piece.as_str()) {
            proof {
                assert(sp[i as int] == piece@);
            }
            return Err(ShareError::InvalidPath);
        }
        i += 1;
    }
    let mut out = String::from_str(root);
    proof {
        reveal_strlit("/");
        assert("/"@ =~= seq!['/']);
    }
    out.append("/");
    out.append(name);
    Ok(out)
}

/// Law: on a nonempty valid relative component sequence,
/// canonicalization is a fixed point: the canonical name splits into
/// plain segments whose rejoining is the name itself, so canonicalizing
/// the name's own components yields the same string again. The empty
/// sequence is left out: its canonical name is the empty string, whose
/// one piece is no plain segment.
pub proof fn lemma_canonical_fixed_point(parts: Seq<PathPart>)
    requires
        parts_ok(parts, true),
        parts.len() >= 1,
    ensures
        canonical_str(parts) == join_slash(seg_seq(parts)),
        forall|i: int|
            0 <= i < split_slash(canonical_str(parts)).len() ==> seg_chars_ok(
                #[trigger] split_slash(canonical_str(parts))[i],
            ),
        join_slash(split_slash(canonical_str(parts))) == canonical_str(parts),
{
    lemma_canonical_relative(parts);
    lemma_seg_seq_ok(parts);
    lemma_split_join(seg_seq(parts));
}

/// Law: a component sequence with all segments valid apart from root
/// markers is accepted exactly when the path need not be relative.
pub proof fn lemma_root_marker(parts: Seq<PathPart>, must_be_relative: bool)
    requires
        exists|i: int| 0 <= i < parts.len() && (#[trigger] parts[i]) is RootMarker,
        forall|i: int|
            0 <= i < parts.len() ==> ((#[trigger] parts[i]) is RootMarker || (parts[i] matches
            PathPart::Normal(s) && seg_chars_ok(s@))),
    ensures
        parts_ok(parts, must_be_relative) <==> !must_be_relative,
{
    if must_be_relative {
        let i = choose|i: int| 0 <= i < parts.len() && (#[trigger] parts[i]) is RootMarker;
        assert(!part_ok(parts[i], must_be_relative));
    } else {
        assert forall|i: int| 0 <= i < parts.len() implies part_ok(parts[i], must_be_relative) by {
            assert(parts[i] is RootMarker || (parts[i] matches PathPart::Normal(s)
                && seg_chars_ok(s@)));
        }
    }
}

/// Law: a component holding an embedded separator of either convention
/// makes the whole sequence invalid, whatever the relativity flag.
pub proof fn lemma_separator_rejected(parts: Seq<PathPart>, i: int, must_be_relative: bool)
    requires
        0 <= i < parts.len(),
        parts[i] matches PathPart::Normal(s) && (s@.contains('/') || s@.contains('\\')),
    ensures
        !parts_ok(parts, must_be_relative),
{
    assert(!part_ok(parts[i], must_be_relative));
}

/// Law: the canonical name of a nonempty valid relative component
/// sequence splits back into exactly its segments, each a plain segment:
/// the export side recovers the imported layout name for name.
pub proof fn lemma_export_round_trip(parts: Seq<PathPart>)
    requires
        parts_ok(parts, true),
        parts.len() >= 1,
    ensures
        split_slash(canonical_str(parts)) == seg_seq(parts),
        forall|i: int|
            0 <= i < seg_seq(parts).len() ==> seg_chars_ok(#[trigger] seg_seq(parts)[i]),
{
    lemma_canonical_relative(parts);
    lemma_seg_seq_ok(parts);
    lemma_split_join(seg_seq(parts));
}

/// On a valid relative sequence there are no root markers, so the
/// canonical name is just the joined segments.
pub proof fn lemma_canonical_relative(parts: Seq<PathPart>)
    requires
        parts_ok(parts, true),
    ensures
        root_count(parts) == 0,
        canonical_str(parts) == join_slash(seg_seq(parts)),
    decreases parts.len(),
{
    if parts.len() == 0 {
    } else {
        assert(part_ok(parts.last(), true));
        assert(parts_ok(parts.drop_last(), true)) by {
            assert(forall|i: int|
                0 <= i < parts.drop_last().len() ==> parts.drop_last()[i] == parts[i]);
        }
        lemma_canonical_relative(parts.drop_last());
    }
    assert(slashes(0) =~= Seq::<char>::empty());
    assert(Seq::<char>::empty() + join_slash(seg_seq(parts)) =~= join_slash(seg_seq(parts)));
}

/// The segments of a valid relative sequence: one per component, each a
/// plain segment.
pub proof fn lemma_seg_seq_ok(parts: Seq<PathPart>)
    requires
        parts_ok(parts, true),
    ensures
        seg_seq(parts).len() == parts.len(),
        forall|i: int|
            0 <= i < seg_seq(parts).len() ==> seg_chars_ok(#[trigger] seg_seq(parts)[i])
                && !seg_seq(parts)[i].contains('/'),
    decreases parts.len(),
{
    if parts.len() > 0 {
        assert(part_ok(parts.last(), true));
        assert(parts_ok(parts.drop_last(), true)) by {
            assert(forall|i: int|
                0 <= i < parts.drop_last().len() ==> parts.drop_last()[i] == parts[i]);
        }
        lemma_seg_seq_ok(parts.drop_last());
    }
}

/// Splitting undoes joining, for at least one separator-free segment.
pub proof fn lemma_split_join(xs: Seq<Seq<char>>)
    requires
        xs.len() >= 1,
        forall|i: int| 0 <= i < xs.len() ==> !(#[trigger] xs[i]).contains('/'),
    ensures
        split_slash(join_slash(xs)) == xs,
    decreases xs.len(),
{
    if xs.len() == 1 {
        lemma_split_noslash(xs[0]);
        assert(seq![xs[0]] =~= xs);
    } else {
        assert(forall|i: int|
            0 <= i < xs.drop_first().len() ==> !(#[trigger] xs.drop_first()[i]).contains('/'))
            by {
            assert(forall|i: int|
                0 <= i < xs.drop_first().len() ==> xs.drop_first()[i] == xs[i + 1]);
        }
        lemma_split_join(xs.drop_first());
        lemma_split_concat(xs[0], join_slash(xs.drop_first()));
        assert(seq![xs[0]] + xs.drop_first() =~= xs);
    }
}

} // verus!
