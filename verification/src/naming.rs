//! Text rules for file names, MIME types and the paths the application builds.

use vstd::prelude::*;

verus! {

/// `seg` is the part of `s` after the last `sep`, or the whole of `s` when
/// `s` holds no `sep` (what `split(sep).last()` gives).
pub open spec fn is_last_segment(s: Seq<char>, sep: char, seg: Seq<char>) -> bool {
    &&& seg.len() <= s.len()
    &&& seg == s.skip(s.len() - seg.len())
    &&& !seg.contains(sep)
    &&& (seg.len() == s.len() || s[s.len() - seg.len() - 1] == sep)
}

/// `seg` is the part of `s` before the first `sep`, or the whole of `s` when
/// `s` holds no `sep` (what `split(sep).next()` gives).
pub open spec fn is_first_segment(s: Seq<char>, sep: char, seg: Seq<char>) -> bool {
    &&& seg.len() <= s.len()
    &&& seg == s.take(seg.len() as int)
    &&& !seg.contains(sep)
    &&& (seg.len() == s.len() || s[seg.len() as int] == sep)
}

/// `s` with every occurrence of `pat` removed, scanning from the left and
/// never letting two removed occurrences overlap (what `str::replace(pat, "")`
/// does). An empty pattern removes nothing.
pub open spec fn without_occurrences(s: Seq<char>, pat: Seq<char>) -> Seq<char>
    decreases s.len(),
{
    if pat.len() == 0 || s.len() < pat.len() {
        s
    } else if s.take(pat.len() as int) == pat {
        without_occurrences(s.skip(pat.len() as int), pat)
    } else {
        seq![s[0]] + without_occurrences(s.skip(1), pat)
    }
}

/// `pat` occurs in `s` starting at index `i`.
pub open spec fn occurs_at(s: Seq<char>, pat: Seq<char>, i: int) -> bool {
    0 <= i && i + pat.len() <= s.len() && s.subrange(i, i + pat.len()) == pat
}

/// The extension the application gives a file name: a dot followed by the
/// text after the last dot (the whole name when it holds no dot).
pub open spec fn extension_of(name: Seq<char>, ext: Seq<char>) -> bool {
    &&& ext.len() >= 1
    &&& ext[0] == '.'
    &&& is_last_segment(name, '.', ext.drop_first())
}

/// The text after the last separator is unique.
pub proof fn lemma_last_segment_unique(s: Seq<char>, sep: char, a: Seq<char>, b: Seq<char>)
    requires
        is_last_segment(s, sep, a),
        is_last_segment(s, sep, b),
    ensures
        a == b,
{
    if a.len() < b.len() {
        let j = b.len() - a.len() - 1;
        assert(b[j] == s[s.len() - a.len() - 1]);
        assert(b.contains(sep));
    } else if b.len() < a.len() {
        let j = a.len() - b.len() - 1;
        assert(a[j] == s[s.len() - b.len() - 1]);
        assert(a.contains(sep));
    }
}

/// Law: removing a pattern that never occurs leaves the text unchanged.
pub proof fn law_absent_pattern_kept(s: Seq<char>, pat: Seq<char>)
    requires
        forall|i: int| !occurs_at(s, pat, i),
    ensures
        without_occurrences(s, pat) == s,
    decreases s.len(),
{
    if pat.len() == 0 || s.len() < pat.len() {
    } else {
        assert(s.take(pat.len() as int) == s.subrange(0, pat.len() as int));
        assert(!occurs_at(s, pat, 0));
        let t = s.skip(1);
        assert forall|i: int| !occurs_at(t, pat, i) by {
            if occurs_at(t, pat, i) {
                assert(s.subrange(i + 1, i + 1 + pat.len()) =~= t.subrange(i, i + pat.len()));
                assert(occurs_at(s, pat, i + 1));
            }
        }
        law_absent_pattern_kept(t, pat);
        assert(seq![s[0]] + t =~= s);
    }
}

/// When the first occurrence of a non-empty pattern is the ending of the
/// text, removing the pattern leaves exactly what precedes that ending.
pub proof fn lemma_single_trailing_occurrence(s: Seq<char>, pat: Seq<char>, k: int)
    requires
        pat.len() > 0,
        occurs_at(s, pat, k),
        k + pat.len() == s.len(),
        forall|i: int| 0 <= i < k ==> !occurs_at(s, pat, i),
    ensures
        without_occurrences(s, pat) == s.take(k),
    decreases k,
{
    assert(s.take(pat.len() as int) == s.subrange(0, pat.len() as int));
    if k == 0 {
        let rest = s.skip(pat.len() as int);
        assert(rest =~= Seq::<char>::empty());
        assert(without_occurrences(rest, pat) == rest);
        assert(s.take(0) =~= Seq::<char>::empty());
    } else {
        assert(!occurs_at(s, pat, 0));
        let t = s.skip(1);
        assert(t.subrange(k - 1, k - 1 + pat.len()) =~= s.subrange(k, k + pat.len()));
        assert forall|i: int| 0 <= i < k - 1 implies !occurs_at(t, pat, i) by {
            if occurs_at(t, pat, i) {
                assert(s.subrange(i + 1, i + 1 + pat.len()) =~= t.subrange(i, i + pat.len()));
                assert(occurs_at(s, pat, i + 1));
            }
        }
        lemma_single_trailing_occurrence(t, pat, k - 1);
        assert(without_occurrences(s, pat) == seq![s[0]] + without_occurrences(t, pat));
        assert(seq![s[0]] + t.take(k - 1) =~= s.take(k));
    }
}

/// Law: removing a pattern never makes a text longer, and removing a
/// non-empty pattern that occurs somewhere makes it strictly shorter.
pub proof fn law_removal_never_lengthens(s: Seq<char>, pat: Seq<char>)
    ensures
        without_occurrences(s, pat).len() <= s.len(),
        pat.len() > 0 && (exists|i: int| occurs_at(s, pat, i)) ==> without_occurrences(
            s,
            pat,
        ).len() < s.len(),
    decreases s.len(),
{
    if pat.len() == 0 || s.len() < pat.len() {
        if pat.len() > 0 && (exists|i: int| occurs_at(s, pat, i)) {
            let i = choose|i: int| occurs_at(s, pat, i);
            assert(false);
        }
    } else if s.take(pat.len() as int) == pat {
        law_removal_never_lengthens(s.skip(pat.len() as int), pat);
    } else {
        let t = s.skip(1);
        law_removal_never_lengthens(t, pat);
        if exists|i: int| occurs_at(s, pat, i) {
            let i = choose|i: int| occurs_at(s, pat, i);
            if i == 0 {
                assert(s.take(pat.len() as int) =~= s.subrange(0, pat.len() as int));
            } else {
                assert(t.subrange(i - 1, i - 1 + pat.len()) =~= s.subrange(i, i + pat.len()));
                assert(occurs_at(t, pat, i - 1));
            }
        }
    }
}

/// The extension of a name that holds a dot is the ending of that name.
pub proof fn lemma_extension_ends_name(name: Seq<char>, ext: Seq<char>)
    requires
        extension_of(name, ext),
        name.contains('.'),
    ensures
        ext.len() <= name.len(),
        occurs_at(name, ext, name.len() - ext.len()),
{
    let seg = ext.drop_first();
    if seg.len() == name.len() {
        let d = choose|d: int| 0 <= d < name.len() && name[d] == '.';
        assert(seg[d] == name[d]);
        assert(false);
    }
    let start = name.len() - ext.len();
    assert(name.subrange(start, name.len() as int) =~= ext) by {
        assert forall|j: int| 0 <= j < ext.len() implies name.subrange(
            start,
            name.len() as int,
        )[j] == ext[j] by {
            if j > 0 {
                assert(seg[j - 1] == name.skip(name.len() - seg.len())[j - 1]);
            }
        }
    }
}

/// Law: when the extension of a file name occurs in it only as its ending,
/// the name with the extension removed, followed by the extension, is the
/// file name again.
pub proof fn law_stem_and_extension_rebuild_name(name: Seq<char>, ext: Seq<char>)
    requires
        extension_of(name, ext),
        name.contains('.'),
        forall|i: int| occurs_at(name, ext, i) ==> i == name.len() - ext.len(),
    ensures
        without_occurrences(name, ext) + ext == name,
{
    lemma_extension_ends_name(name, ext);
    let k = name.len() - ext.len();
    lemma_single_trailing_occurrence(name, ext, k);
    assert(name.subrange(k, name.len() as int) == ext);
    assert(name.take(k) + ext =~= name);
}

/// Law: a file name with exactly one dot splits into the text before the dot
/// and the extension, and the two rebuild the name.
pub proof fn law_single_dot_name_splits(name: Seq<char>, ext: Seq<char>, dot: int)
    requires
        extension_of(name, ext),
        0 <= dot < name.len(),
        name[dot] == '.',
        forall|i: int| 0 <= i < name.len() && name[i] == '.' ==> i == dot,
    ensures
        without_occurrences(name, ext) == name.take(dot),
        without_occurrences(name, ext) + ext == name,
{
    assert(name.contains('.'));
    lemma_extension_ends_name(name, ext);
    let k = name.len() - ext.len();
    assert(name.subrange(k, k + ext.len())[0] == ext[0]);
    assert(k == dot);
    assert forall|i: int| occurs_at(name, ext, i) implies i == name.len() - ext.len() by {
        assert(name.subrange(i, i + ext.len())[0] == ext[0]);
    }
    law_stem_and_extension_rebuild_name(name, ext);
    lemma_single_trailing_occurrence(name, ext, k);
}

/// Law: a file name without a dot keeps its whole text once its extension
/// is removed.
pub proof fn law_dotless_name_kept(name: Seq<char>, ext: Seq<char>)
    requires
        extension_of(name, ext),
        !name.contains('.'),
    ensures
        without_occurrences(name, ext) == name,
{
    let seg = ext.drop_first();
    if seg.len() < name.len() {
        assert(name[name.len() - seg.len() - 1] == '.');
        assert(false);
    }
    assert(ext.len() > name.len());
}

/// Index of the first character after the last `sep` in `s[..k]`, found by
/// scanning backwards from `k`.
fn segment_start_before(s: &str, sep: char, k: usize) -> (start: usize)
    requires
        k <= s@.len(),
    ensures
        start <= k,
        forall|j: int| start <= j < k ==> s@[j] != sep,
        start == 0 || s@[start - 1] == sep,
{
    let mut start: usize = k;
    while start > 0 && s.get_char(start - 1) != sep
        invariant
            start <= k,
            k <= s@.len(),
            forall|j: int| start <= j < k ==> s@[j] != sep,
        decreases start,
    {
        start = start - 1;
    }
    start
}

/// The text after the last `sep` in `s`, or all of `s` when it holds none.
pub fn last_segment(s: &str, sep: char) -> (seg: String)
    ensures
        is_last_segment(s@, sep, seg@),
{
    let n = s.unicode_len();
    let start = segment_start_before(s, sep, n);
    let seg = s.substring_char(start, n);
    assert(seg@ == s@.skip(start as int));
    String::from_str(seg)
}

/// The text before the first `sep` in `s`, or all of `s` when it holds none.
pub fn first_segment(s: &str, sep: char) -> (seg: String)
    ensures
        is_first_segment(s@, sep, seg@),
{
    let n = s.unicode_len();
    let mut end: usize = 0;
    while end < n && s.get_char(end) != sep
        invariant
            end <= n,
            n == s@.len(),
            forall|j: int| 0 <= j < end ==> s@[j] != sep,
        decreases n - end,
    {
        end = end + 1;
    }
    let seg = s.substring_char(0, end);
    assert(seg@ == s@.take(end as int));
    String::from_str(seg)
}

/// The extension of a file name: a dot and the text after the last dot.
/// A name without a dot yields a dot followed by the whole name.
pub fn file_extension(file_name: &str) -> (ext: String)
    ensures
        extension_of(file_name@, ext@),
        ext@ == seq!['.'] + ext@.drop_first(),
{
    let seg = last_segment(file_name, '.');
    let mut ext = String::from_str(".");
    proof {
        reveal_strlit(".");
    }
    ext.append(seg.as_str());
    assert(ext@.drop_first() == seg@);
    ext
}

/// Whether `pattern` occurs in `text` at char index `i`.
fn occurs_at_index(text: &str, pattern: &str, i: usize) -> (b: bool)
    requires
        i <= text@.len(),
    ensures
        b == occurs_at(text@, pattern@, i as int),
{
    let n = text.unicode_len();
    let m = pattern.unicode_len();
    if m > n - i {
        return false;
    }
    let mut j: usize = 0;
    while j < m
        invariant
            j <= m,
            n == text@.len(),
            m == pattern@.len(),
            i + m <= n,
            forall|k: int| 0 <= k < j ==> text@[i + k] == pattern@[k],
        decreases m - j,
    {
        if text.get_char(i + j) != pattern.get_char(j) {
            assert(text@.subrange(i as int, i + m)[j as int] != pattern@[j as int]);
            return false;
        }
        j = j + 1;
    }
    assert(text@.subrange(i as int, i + m) =~= pattern@);
    true
}

/// `text` with every occurrence of `pattern` removed, from the left and
/// without overlaps; an empty pattern leaves the text as it is.
pub fn remove_all(text: &str, pattern: &str) -> (res: String)
    ensures
        res@ == without_occurrences(text@, pattern@),
{
    let n = text.unicode_len();
    let m = pattern.unicode_len();
    if m == 0 {
        return String::from_str(text);
    }
    let mut res = String::new();
    let mut i: usize = 0;
    assert(text@.skip(0) =~= text@);
    while i < n
        invariant
            i <= n,
            n == text@.len(),
            m == pattern@.len(),
            m > 0,
            without_occurrences(text@, pattern@) == res@ + without_occurrences(
                text@.skip(i as int),
                pattern@,
            ),
        decreases n - i,
    {
        let ghost t = text@.skip(i as int);
        if occurs_at_index(text, pattern, i) {
            assert(t.take(m as int) =~= text@.subrange(i as int, i + m));
            assert(t.skip(m as int) =~= text@.skip(i + m));
            i = i + m;
        } else {
            let c = text.substring_char(i, i + 1);
            proof {
                assert(t.skip(1) =~= text@.skip(i + 1));
                if t.len() >= m {
                    assert(t.take(m as int) =~= text@.subrange(i as int, i + m));
                } else {
                    assert(t =~= seq![t[0]] + t.skip(1));
                }
                assert(c@ =~= seq![t[0]]);
            }
            let ghost before = res@;
            res.append(c);
            assert(res@ + without_occurrences(text@.skip(i + 1), pattern@) =~= before + (c@
                + without_occurrences(text@.skip(i + 1), pattern@)));
            i = i + 1;
        }
    }
    assert(text@.skip(n as int) =~= Seq::<char>::empty());
    assert(res@ + Seq::<char>::empty() =~= res@);
    res
}

/// The path of the built-in folder icon of a colour:
/// `/app/share/folder_icon/folders/folder_<color>.svg`.
pub fn built_in_icon_path(color: &str) -> (path: String)
    ensures
        path@ == "/app/share/folder_icon/folders/folder_"@ + color@ + ".svg"@,
{
    let mut path = String::from_str("/app/share/folder_icon/folders/folder_");
    path.append(color);
    path.append(".svg");
    path
}

/// Where an SVG pasted from the clipboard is stored once rendered:
/// `<cache_dir>/clipboard.png`.
pub fn clipboard_png_path(cache_dir: &str) -> (path: String)
    ensures
        path@ == cache_dir@ + "/clipboard.png"@,
{
    let mut path = String::from_str(cache_dir);
    path.append("/clipboard.png");
    path
}

/// The name offered when saving the composed icon: `folder-<name>.png`,
/// after the top image's name.
pub fn save_file_name(top_filename: &str) -> (name: String)
    ensures
        name@ == "folder-"@ + top_filename@ + ".png"@,
{
    let mut name = String::from_str("folder-");
    name.append(top_filename);
    name.append(".png");
    name
}

/// The main type of a MIME type: the text before the first `/`
/// (`image` for `image/png`).
pub fn mime_main_type(content_type: &str) -> (main: String)
    ensures
        is_first_segment(content_type@, '/', main@),
{
    first_segment(content_type, '/')
}

} // verus!
