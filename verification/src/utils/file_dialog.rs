//! The file dialog's pure decision logic.
//!
//! Showing the dialog, transferring bytes and building the host's C
//! structures is host work. The library owns what the dialog is asked for:
//! the accept string offered to the load dialog, the media type resolved
//! for each filter extension, the suggested media type, and the suggested
//! file name (the configured one, or the epoch second count in decimal).

use vstd::prelude::*;
use vstd::string::*;

verus! {

/// An extension stored in a dialog filter carries its leading dot.
pub open spec fn ext_wf(e: String) -> bool {
    e@.len() >= 1 && e@[0] == '.'
}

/// Every extension of a filter group is well formed.
pub open spec fn group_wf(g: (String, Vec<String>)) -> bool {
    forall|j: int| 0 <= j < g.1@.len() ==> ext_wf(#[trigger] g.1@[j])
}

/// A file dialog being configured: an optional suggested file name and a
/// list of named filter groups, each holding dotted extensions.
#[derive(Debug, Clone)]
pub struct FileDialog {
    file_name: Option<String>,
    filter: Vec<(String, Vec<String>)>,
}

impl FileDialog {
    /// The suggested file name, if one was set.
    pub closed spec fn spec_file_name(self) -> Option<String> {
        self.file_name
    }

    /// The filter groups.
    pub closed spec fn spec_filter(self) -> Seq<(String, Vec<String>)> {
        self.filter@
    }

    /// Every stored extension carries its leading dot.
    pub open spec fn wf(self) -> bool {
        forall|i: int|
            0 <= i < self.spec_filter().len() ==> group_wf(#[trigger] self.spec_filter()[i])
    }
}

impl Default for FileDialog {
    /// A dialog with no suggested name and no filters.
    fn default() -> (r: FileDialog)
        ensures
            r.spec_file_name() is None,
            r.spec_filter() == Seq::<(String, Vec<String>)>::empty(),
            r.wf(),
    {
        let r = FileDialog { file_name: None, filter: Vec::new() };
        proof {
            assert(r.spec_filter() =~= Seq::<(String, Vec<String>)>::empty());
        }
        r
    }
}

impl FileDialog {
    /// Sets the suggested file name.
    pub fn set_file_name(self, file_name: String) -> (r: FileDialog)
        ensures
            r.spec_file_name() == Some(file_name),
            r.spec_filter() == self.spec_filter(),
            self.wf() ==> r.wf(),
    {
        FileDialog { file_name: Some(file_name), filter: self.filter }
    }

    /// Adds a filter group: the given name, and the extensions each
    /// prefixed with a dot.
    pub fn add_filter(self, name: String, extensions: &Vec<String>) -> (r: FileDialog)
        ensures
            r.spec_file_name() == self.spec_file_name(),
            r.spec_filter().len() == self.spec_filter().len() + 1,
            forall|i: int|
                0 <= i < self.spec_filter().len() ==> r.spec_filter()[i] == #[trigger] self.spec_filter()[i],
            r.spec_filter().last().0 == name,
            r.spec_filter().last().1@.len() == extensions@.len(),
            forall|k: int|
                0 <= k < extensions@.len() ==> (#[trigger] r.spec_filter().last().1@[k])@ == "."@
                    + extensions@[k]@,
            self.wf() ==> r.wf(),
    {
        proof {
            reveal_strlit(".");
        }
        let mut dotted: Vec<String> = Vec::new();
        let n = extensions.len();
        let mut k: usize = 0;
        while k < n
            invariant
                n == extensions@.len(),
                k <= n,
                dotted@.len() == k,
                forall|j: int|
                    0 <= j < k ==> (#[trigger] dotted@[j])@ == "."@ + extensions@[j]@ && ext_wf(
                        dotted@[j],
                    ),
        decreases n - k,
        {
            let d = String::from_str(".").concat(extensions[k].as_str());
            proof {
                reveal_strlit(".");
                assert(d@ == "."@ + extensions@[k as int]@);
                assert(d@[0] == '.');
            }
            dotted.push(d);
            k = k + 1;
        }
        let mut filter = self.filter;
        let ghost old_filter = filter@;
        filter.push((name, dotted));
        let r = FileDialog { file_name: self.file_name, filter };
        proof {
            assert(group_wf(r.spec_filter().last()));
            if self.wf() {
                assert forall|i: int| 0 <= i < r.spec_filter().len() implies group_wf(
                    #[trigger] r.spec_filter()[i],
                ) by {
                    if i < old_filter.len() {
                        assert(group_wf(self.spec_filter()[i]));
                    }
                }
            }
        }
        r
    }
}

/// All extensions of all filter groups, flattened in order.
pub open spec fn all_exts(filter: Seq<(String, Vec<String>)>) -> Seq<Seq<char>>
    decreases filter.len(),
{
    if filter.len() == 0 {
        Seq::empty()
    } else {
        all_exts(filter.drop_last()) + filter.last().1@.map_values(|s: String| s@)
    }
}

/// Joining with a delimiter between every two pieces, empty or not.
pub open spec fn join_all(vals: Seq<Seq<char>>, delim: Seq<char>) -> Seq<char>
    decreases vals.len(),
{
    if vals.len() == 0 {
        Seq::empty()
    } else if vals.len() == 1 {
        vals[0]
    } else {
        join_all(vals.drop_last(), delim) + delim + vals.last()
    }
}

impl FileDialog {
    /// The accept string the load dialog is asked with: every filter
    /// extension, comma-separated — or a lone star when no filter was
    /// configured.
    pub fn accept_string(&self) -> (r: String)
        ensures
            all_exts(self.spec_filter()).len() == 0 ==> r@ == "*"@,
            all_exts(self.spec_filter()).len() > 0 ==> r@ == join_all(
                all_exts(self.spec_filter()),
                ","@,
            ),
    {
        let flat = self.flat_extensions();
        let ghost exts = all_exts(self.spec_filter());
        if flat.len() == 0 {
            return String::from_str("*");
        }
        let mut acc = flat[0].clone();
        let n = flat.len();
        let mut i: usize = 1;
        while i < n
            invariant
                n == flat@.len(),
                1 <= i <= n,
                exts == flat@.map_values(|s: String| s@),
                exts.len() == n,
                acc@ == join_all(exts.take(i as int), ","@),
            decreases n - i,
        {
            acc.append(",");
            acc.append(flat[i].as_str());
            proof {
                assert(exts.take(i + 1).drop_last() =~= exts.take(i as int));
                assert(exts.take(i + 1).last() == exts[i as int]);
                assert(exts[i as int] == flat@[i as int]@);
            }
            i = i + 1;
        }
        proof {
            assert(exts.take(n as int) =~= exts);
        }
        acc
    }

    /// The flattened extension list, cloned out of the filter groups.
    fn flat_extensions(&self) -> (r: Vec<String>)
        ensures
            r@.map_values(|s: String| s@) == all_exts(self.spec_filter()),
    {
        let mut flat: Vec<String> = Vec::new();
        proof {
            assert(flat@.map_values(|s: String| s@) =~= all_exts(
                self.spec_filter().take(0int),
            ));
        }
        let groups = self.filter.len();
        let mut gi: usize = 0;
        while gi < groups
            invariant
                groups == self.spec_filter().len(),
                gi <= groups,
                flat@.map_values(|s: String| s@) == all_exts(self.spec_filter().take(gi as int)),
            decreases groups - gi,
        {
            let ghost before = flat@;
            let m = self.filter[gi].1.len();
            let mut k: usize = 0;
            while k < m
                invariant
                    gi < groups,
                    groups == self.spec_filter().len(),
                    m == self.spec_filter()[gi as int].1@.len(),
                    k <= m,
                    before.map_values(|s: String| s@) == all_exts(
                        self.spec_filter().take(gi as int),
                    ),
                    flat@.len() == before.len() + k,
                    forall|j: int| 0 <= j < before.len() ==> flat@[j] == #[trigger] before[j],
                    forall|j: int|
                        0 <= j < k ==> #[trigger] flat@[before.len() + j] == self.spec_filter()[gi as int].1@[j],
                decreases m - k,
            {
                let e = self.filter[gi].1[k].clone();
                flat.push(e);
                k = k + 1;
            }
            proof {
                assert(self.spec_filter().take(gi + 1).drop_last() =~= self.spec_filter().take(
                    gi as int,
                ));
                assert(self.spec_filter().take(gi + 1).last() == self.spec_filter()[gi as int]);
                let lhs = flat@.map_values(|s: String| s@);
                let group = self.spec_filter()[gi as int].1@.map_values(|s: String| s@);
                let rhs = all_exts(self.spec_filter().take(gi as int)) + group;
                assert forall|j: int| 0 <= j < lhs.len() implies lhs[j] == rhs[j] by {
                    if j < before.len() {
                        assert(flat@[j] == before[j]);
                        assert(before.map_values(|s: String| s@)[j] == before[j]@);
                    } else {
                        let jj = j - before.len();
                        assert(flat@[before.len() + jj] == self.spec_filter()[gi as int].1@[jj]);
                        assert(group[jj] == self.spec_filter()[gi as int].1@[jj]@);
                    }
                }
                assert(lhs =~= rhs);
            }
            gi = gi + 1;
        }
        proof {
            assert(self.spec_filter().take(groups as int) =~= self.spec_filter());
        }
        flat
    }
}

/// The media type the table gives for an extension (without its dot).
pub uninterp spec fn mime_of_ext(ext: Seq<char>) -> Option<Seq<char>>;

/// The media type the table gives for a whole path.
pub uninterp spec fn mime_of_path(path: Seq<char>) -> Option<Seq<char>>;

/// Relies on `mime_guess::from_ext(..).first_raw()`: a lookup in a fixed
/// table, so the result depends on the extension text alone.
#[verifier::external_body]
fn guess_mime_for_ext(ext: &str) -> (r: Option<String>)
    ensures
        r matches Some(s) ==> mime_of_ext(ext@) == Some(s@),
        r is None ==> mime_of_ext(ext@) is None,
{
    mime_guess::from_ext(ext).first_raw().map(|s| s.to_owned())
}

/// Relies on `mime_guess::from_path(..).first_raw()`: a lookup in a fixed
/// table keyed by the path's extension, so the result depends on the path
/// text alone.
#[verifier::external_body]
fn guess_mime_for_path(path: &str) -> (r: Option<String>)
    ensures
        r matches Some(s) ==> mime_of_path(path@) == Some(s@),
        r is None ==> mime_of_path(path@) is None,
{
    mime_guess::from_path(path).first_raw().map(|s| s.to_owned())
}

/// The view of an optional media type.
pub open spec fn mime_view(o: Option<String>) -> Option<Seq<char>> {
    match o {
        Some(s) => Some(s@),
        None => None,
    }
}

/// The suggestion drawn from the configured file name alone.
pub open spec fn initial_mime(file_name: Option<String>) -> Option<Seq<char>> {
    match file_name {
        Some(s) => mime_of_path(s@),
        None => None,
    }
}

/// The suggested media type once the given (dotted) extensions have been
/// examined: the initial suggestion, or failing that the first extension
/// whose own lookup succeeds.
pub open spec fn suggested_after(init: Option<Seq<char>>, exts: Seq<Seq<char>>) -> Option<
    Seq<char>,
>
    decreases exts.len(),
{
    if exts.len() == 0 {
        init
    } else {
        let before = suggested_after(init, exts.drop_last());
        if before is Some {
            before
        } else {
            mime_of_ext(exts.last().skip(1))
        }
    }
}

/// The media type assigned to extension `i`: its own lookup, else the
/// suggestion standing before it, else the octet-stream fallback.
pub open spec fn assigned_mime(init: Option<Seq<char>>, exts: Seq<Seq<char>>, i: int) -> Seq<
    char,
> {
    let own = mime_of_ext(exts[i].skip(1));
    let m = if own is Some {
        own
    } else {
        suggested_after(init, exts.take(i))
    };
    if m is Some {
        m->Some_0
    } else {
        "application/octet-stream"@
    }
}

/// Every extension a well-formed dialog stores carries its leading dot.
pub proof fn lemma_all_exts_wf(filter: Seq<(String, Vec<String>)>)
    requires
        forall|i: int| 0 <= i < filter.len() ==> group_wf(#[trigger] filter[i]),
    ensures
        forall|i: int|
            0 <= i < all_exts(filter).len() ==> (#[trigger] all_exts(filter)[i]).len() >= 1
                && all_exts(filter)[i][0] == '.',
    decreases filter.len(),
{
    if filter.len() > 0 {
        let prefix = filter.drop_last();
        assert forall|i: int| 0 <= i < prefix.len() implies group_wf(#[trigger] prefix[i]) by {
            assert(prefix[i] == filter[i]);
            assert(group_wf(filter[i]));
        }
        lemma_all_exts_wf(prefix);
        let head = all_exts(prefix);
        let group = filter.last().1@.map_values(|s: String| s@);
        assert(group_wf(filter[filter.len() - 1]));
        assert forall|i: int|
            0 <= i < all_exts(filter).len() implies (#[trigger] all_exts(filter)[i]).len() >= 1
            && all_exts(filter)[i][0] == '.' by {
            if i < head.len() {
                assert(all_exts(filter)[i] == head[i]);
                assert(head[i].len() >= 1 && head[i][0] == '.');
            } else {
                let jj = i - head.len();
                assert(all_exts(filter)[i] == group[jj]);
                assert(group[jj] == filter.last().1@[jj]@);
                assert(ext_wf(filter.last().1@[jj]));
            }
        }
    }
}

impl FileDialog {
    /// The media type resolved for each filter extension, in order, paired
    /// with the extension, and the dialog's overall suggested media type —
    /// the octet-stream fallback if nothing was ever suggested.
    pub fn save_file_mimes(&self) -> (r: (Vec<(String, String)>, String))
        requires
            self.wf(),
        ensures
            ({
                let exts = all_exts(self.spec_filter());
                let init = initial_mime(self.spec_file_name());
                let fin = suggested_after(init, exts);
                &&& r.0@.len() == exts.len()
                &&& (forall|i: int|
                    0 <= i < exts.len() ==> (#[trigger] r.0@[i]).0@ == exts[i] && r.0@[i].1@
                        == assigned_mime(init, exts, i))
                &&& r.1@ == (if fin is Some {
                    fin->Some_0
                } else {
                    "application/octet-stream"@
                })
            }),
    {
        let ghost exts = all_exts(self.spec_filter());
        let ghost init = initial_mime(self.spec_file_name());
        proof {
            lemma_all_exts_wf(self.spec_filter());
        }
        let flat = self.flat_extensions();
        let mut suggested: Option<String> = match &self.file_name {
            Some(name) => guess_mime_for_path(name.as_str()),
            None => None,
        };
        proof {
            assert(mime_view(suggested) == init);
            assert(exts.take(0int) =~= Seq::<Seq<char>>::empty());
        }
        let mut out: Vec<(String, String)> = Vec::new();
        let n = flat.len();
        let mut i: usize = 0;
        while i < n
            invariant
                n == flat@.len(),
                i <= n,
                exts == flat@.map_values(|s: String| s@),
                exts == all_exts(self.spec_filter()),
                init == initial_mime(self.spec_file_name()),
                forall|k: int|
                    0 <= k < exts.len() ==> (#[trigger] exts[k]).len() >= 1 && exts[k][0] == '.',
                mime_view(suggested) == suggested_after(init, exts.take(i as int)),
                out@.len() == i,
                forall|k: int|
                    0 <= k < i ==> (#[trigger] out@[k]).0@ == exts[k] && out@[k].1@
                        == assigned_mime(init, exts, k),
            decreases n - i,
        {
            let ext = &flat[i];
            proof {
                assert(exts[i as int] == flat@[i as int]@);
                assert(exts[i as int].len() >= 1);
            }
            let n_chars = ext.as_str().unicode_len();
            let tail = ext.as_str().substring_char(1, n_chars);
            proof {
                assert(tail@ =~= exts[i as int].skip(1));
            }
            let got = guess_mime_for_ext(tail);
            let assigned: String = match &got {
                Some(s) => s.clone(),
                None => match &suggested {
                    Some(s) => s.clone(),
                    None => String::from_str("application/octet-stream"),
                },
            };
            proof {
                assert(assigned@ == assigned_mime(init, exts, i as int));
            }
            out.push((ext.clone(), assigned));
            match &suggested {
                Some(_) => {},
                None => {
                    suggested = got;
                },
            }
            proof {
                assert(exts.take(i + 1).drop_last() =~= exts.take(i as int));
                assert(exts.take(i + 1).last() == exts[i as int]);
                assert(mime_view(suggested) == suggested_after(init, exts.take(i + 1)));
            }
            i = i + 1;
        }
        proof {
            assert(exts.take(n as int) =~= exts);
        }
        let overall: String = match &suggested {
            Some(s) => s.clone(),
            None => String::from_str("application/octet-stream"),
        };
        (out, overall)
    }

    /// The file name offered to the save dialog: the configured one, or
    /// the epoch second count written in decimal.
    pub fn suggested_file_name(&self, epoch_seconds: u64) -> (r: String)
        ensures
            self.spec_file_name() matches Some(s) ==> r@ == s@,
            self.spec_file_name() is None ==> r@ == dec_chars(epoch_seconds as nat),
    {
        match &self.file_name {
            Some(s) => s.clone(),
            None => decimal_string(epoch_seconds),
        }
    }
}

/// The extensions among `pairs` whose assigned media type is `m`, in
/// order.
pub open spec fn exts_with_mime(pairs: Seq<(String, String)>, m: Seq<char>) -> Seq<Seq<char>>
    decreases pairs.len(),
{
    if pairs.len() == 0 {
        Seq::empty()
    } else {
        let rest = exts_with_mime(pairs.drop_last(), m);
        if pairs.last().1@ == m {
            rest.push(pairs.last().0@)
        } else {
            rest
        }
    }
}

/// A media type occurring in no pair selects no extension.
proof fn lemma_exts_with_mime_empty(pairs: Seq<(String, String)>, m: Seq<char>)
    requires
        forall|k: int| 0 <= k < pairs.len() ==> (#[trigger] pairs[k]).1@ != m,
    ensures
        exts_with_mime(pairs, m) == Seq::<Seq<char>>::empty(),
    decreases pairs.len(),
{
    if pairs.len() > 0 {
        let head = pairs.drop_last();
        assert forall|k: int| 0 <= k < head.len() implies (#[trigger] head[k]).1@ != m by {
            assert(head[k] == pairs[k]);
        }
        lemma_exts_with_mime_empty(head, m);
        assert(pairs.last().1@ != m);
    }
}

/// Some group carries media type `m`.
pub open spec fn has_mime(groups: Seq<(String, Vec<String>)>, m: Seq<char>) -> bool {
    exists|g: int| 0 <= g < groups.len() && (#[trigger] groups[g]).0@ == m
}

/// Some pair among the first `i` was assigned media type `m`.
pub open spec fn mime_used(pairs: Seq<(String, String)>, i: int, m: Seq<char>) -> bool {
    exists|k: int| 0 <= k < i && (#[trigger] pairs[k]).1@ == m
}

/// The grouping invariant at step `i`: groups hold exactly the extensions
/// of their media type among the first `i` pairs, group media types are
/// distinct, and they are exactly the media types of those pairs.
pub open spec fn grouping_ok(
    pairs: Seq<(String, String)>,
    groups: Seq<(String, Vec<String>)>,
    i: int,
) -> bool {
    &&& forall|g: int|
        0 <= g < groups.len() ==> (#[trigger] groups[g]).1@.map_values(|s: String| s@)
            == exts_with_mime(pairs.take(i), groups[g].0@)
    &&& forall|g: int, h: int|
        0 <= g < h < groups.len() ==> (#[trigger] groups[g]).0@ != (#[trigger] groups[h]).0@
    &&& forall|k: int| 0 <= k < i ==> has_mime(groups, (#[trigger] pairs[k]).1@)
    &&& forall|g: int| 0 <= g < groups.len() ==> mime_used(pairs, i, (#[trigger] groups[g]).0@)
}

/// Taking pair `i` into the group that already carries its media type
/// keeps the grouping invariant.
#[verifier::spinoff_prover]
proof fn lemma_group_step_update(
    pairs: Seq<(String, String)>,
    prev: Seq<(String, Vec<String>)>,
    cur: Seq<(String, Vec<String>)>,
    i: int,
    found: int,
)
    requires
        0 <= i < pairs.len(),
        grouping_ok(pairs, prev, i),
        0 <= found < prev.len(),
        prev[found].0@ == pairs[i].1@,
        cur.len() == prev.len(),
        cur[found].0 == prev[found].0,
        cur[found].1@ == prev[found].1@.push(pairs[i].0),
        forall|g: int| 0 <= g < prev.len() && g != found ==> #[trigger] cur[g] == prev[g],
    ensures
        grouping_ok(pairs, cur, i + 1),
{
    let cur_mime = pairs[i].1@;
    assert(pairs.take(i + 1).drop_last() =~= pairs.take(i));
    assert(pairs.take(i + 1).last() == pairs[i]);
    assert forall|g: int| 0 <= g < prev.len() && g != found implies (#[trigger] prev[g]).0@
        != cur_mime by {
        if g < found {
            assert(prev[g].0@ != prev[found].0@);
        } else {
            assert(prev[found].0@ != prev[g].0@);
        }
    }
    assert forall|g: int| 0 <= g < cur.len() implies (#[trigger] cur[g]).1@.map_values(
        |s: String| s@,
    ) == exts_with_mime(pairs.take(i + 1), cur[g].0@) by {
        if g == found {
            assert(cur[g].1@.map_values(|s: String| s@) =~= prev[g].1@.map_values(
                |s: String| s@,
            ).push(pairs[i].0@));
        } else {
            assert(cur[g] == prev[g]);
            assert(cur[g].0@ != cur_mime);
        }
    }
    assert forall|k: int| 0 <= k < i + 1 implies has_mime(cur, (#[trigger] pairs[k]).1@) by {
        if k < i {
            assert(has_mime(prev, pairs[k].1@));
            let w = choose|w: int| 0 <= w < prev.len() && prev[w].0@ == pairs[k].1@;
            assert(cur[w].0@ == pairs[k].1@);
        } else {
            assert(cur[found].0@ == pairs[i].1@);
        }
    }
    assert forall|g: int| 0 <= g < cur.len() implies mime_used(pairs, i + 1, (#[trigger] cur[g]).0@) by {
        assert(mime_used(pairs, i, prev[g].0@));
        let w = choose|w: int| 0 <= w < i && pairs[w].1@ == prev[g].0@;
        assert(cur[g].0@ == prev[g].0@);
        assert(pairs[w].1@ == cur[g].0@);
    }
}

/// Opening a fresh group for pair `i`, whose media type no group carries
/// yet, keeps the grouping invariant.
#[verifier::spinoff_prover]
proof fn lemma_group_step_new(
    pairs: Seq<(String, String)>,
    prev: Seq<(String, Vec<String>)>,
    cur: Seq<(String, Vec<String>)>,
    i: int,
)
    requires
        0 <= i < pairs.len(),
        grouping_ok(pairs, prev, i),
        forall|g: int| 0 <= g < prev.len() ==> (#[trigger] prev[g]).0@ != pairs[i].1@,
        cur.len() == prev.len() + 1,
        forall|g: int| 0 <= g < prev.len() ==> #[trigger] cur[g] == prev[g],
        cur.last().0@ == pairs[i].1@,
        cur.last().1@.map_values(|s: String| s@) =~= Seq::<Seq<char>>::empty().push(pairs[i].0@),
    ensures
        grouping_ok(pairs, cur, i + 1),
{
    let cur_mime = pairs[i].1@;
    assert(pairs.take(i + 1).drop_last() =~= pairs.take(i));
    assert(pairs.take(i + 1).last() == pairs[i]);
    assert forall|k: int| 0 <= k < pairs.take(i).len() implies (#[trigger] pairs.take(i)[k]).1@
        != cur_mime by {
        assert(pairs.take(i)[k] == pairs[k]);
        if pairs[k].1@ == cur_mime {
            assert(has_mime(prev, pairs[k].1@));
            let w = choose|w: int| 0 <= w < prev.len() && prev[w].0@ == pairs[k].1@;
            assert(prev[w].0@ != cur_mime);
        }
    }
    lemma_exts_with_mime_empty(pairs.take(i), cur_mime);
    assert forall|g: int| 0 <= g < cur.len() implies (#[trigger] cur[g]).1@.map_values(
        |s: String| s@,
    ) == exts_with_mime(pairs.take(i + 1), cur[g].0@) by {
        if g < prev.len() {
            assert(cur[g] == prev[g]);
            assert(cur[g].0@ != cur_mime);
        } else {
            assert(cur[g] == cur.last());
            assert(cur[g].0@ == cur_mime);
        }
    }
    assert forall|g: int, h: int| 0 <= g < h < cur.len() implies (#[trigger] cur[g]).0@
        != (#[trigger] cur[h]).0@ by {
        if h < prev.len() {
            assert(prev[g].0@ != prev[h].0@);
        } else {
            assert(cur[h].0@ == cur_mime);
            assert(prev[g].0@ != cur_mime);
        }
    }
    assert forall|k: int| 0 <= k < i + 1 implies has_mime(cur, (#[trigger] pairs[k]).1@) by {
        if k < i {
            assert(has_mime(prev, pairs[k].1@));
            let w = choose|w: int| 0 <= w < prev.len() && prev[w].0@ == pairs[k].1@;
            assert(cur[w].0@ == pairs[k].1@);
        } else {
            assert(cur[prev.len() as int].0@ == pairs[i].1@);
        }
    }
    assert forall|g: int| 0 <= g < cur.len() implies mime_used(pairs, i + 1, (#[trigger] cur[g]).0@) by {
        if g < prev.len() {
            assert(mime_used(pairs, i, prev[g].0@));
            let w = choose|w: int| 0 <= w < i && pairs[w].1@ == prev[g].0@;
            assert(cur[g].0@ == pairs[w].1@);
        } else {
            assert(cur[g].0@ == pairs[i].1@);
        }
    }
}

/// Groups the (extension, media type) pairs of `save_file_mimes` by media
/// type, the shape the host's accept table takes: each group holds
/// exactly the extensions assigned its media type, in their incoming
/// order; group media types are distinct; and the groups' media types are
/// exactly those occurring among the pairs.
pub fn group_by_mime(pairs: &Vec<(String, String)>) -> (r: Vec<(String, Vec<String>)>)
    ensures
        grouping_ok(pairs@, r@, pairs@.len() as int),
{
    let mut out: Vec<(String, Vec<String>)> = Vec::new();
    let n = pairs.len();
    let mut i: usize = 0;
    proof {
        assert(pairs@.take(0int) =~= Seq::<(String, String)>::empty());
    }
    while i < n
        invariant
            n == pairs@.len(),
            i <= n,
            grouping_ok(pairs@, out@, i as int),
        decreases n - i,
    {
        let glen = out.len();
        let mut g: usize = 0;
        let mut found = glen;
        while g < glen
            invariant
                glen == out@.len(),
                g <= glen,
                found == glen || (found < glen && out@[found as int].0@ == pairs@[i as int].1@),
                found == glen ==> (forall|h: int|
                    0 <= h < g ==> (#[trigger] out@[h]).0@ != pairs@[i as int].1@),
                i < n,
                n == pairs@.len(),
            decreases glen - g,
        {
            if found == glen && out[g].0.eq(&pairs[i].1) {
                found = g;
            }
            g = g + 1;
        }
        let ghost prev = out@;
        if found < glen {
            let (mime, mut exts) = out.remove(found);
            exts.push(pairs[i].0.clone());
            out.insert(found, (mime, exts));
            proof {
                assert forall|k: int| 0 <= k < prev.len() && k != found implies #[trigger] out@[k]
                    == prev[k] by {}
                lemma_group_step_update(pairs@, prev, out@, i as int, found as int);
            }
        } else {
            let mut exts: Vec<String> = Vec::new();
            exts.push(pairs[i].0.clone());
            out.push((pairs[i].1.clone(), exts));
            proof {
                assert(out@.last().1@.map_values(|s: String| s@) =~= Seq::<Seq<
                    char,
                >>::empty().push(pairs@[i as int].0@));
                lemma_group_step_new(pairs@, prev, out@, i as int);
            }
        }
        i = i + 1;
    }
    proof {
        assert(pairs@.take(n as int) =~= pairs@);
    }
    out
}

/// The character of one decimal digit.
pub open spec fn digit_char(d: nat) -> char {
    if d == 0 {
        '0'
    } else if d == 1 {
        '1'
    } else if d == 2 {
        '2'
    } else if d == 3 {
        '3'
    } else if d == 4 {
        '4'
    } else if d == 5 {
        '5'
    } else if d == 6 {
        '6'
    } else if d == 7 {
        '7'
    } else if d == 8 {
        '8'
    } else {
        '9'
    }
}

/// The decimal digits of `n`, most significant first.
pub open spec fn dec_chars(n: nat) -> Seq<char>
    decreases n,
{
    if n < 10 {
        seq![digit_char(n)]
    } else {
        dec_chars(n / 10).push(digit_char(n % 10))
    }
}

/// The characters of a digit stack read from the top: digit values were
/// pushed least significant first, so reading back-to-front spells the
/// number out.
pub open spec fn rev_digit_chars(s: Seq<u64>) -> Seq<char> {
    Seq::new(s.len(), |i: int| digit_char(s[s.len() - 1 - i] as nat))
}

/// One digit as text.
fn digit_str(d: u64) -> (r: &'static str)
    requires
        d < 10,
    ensures
        r@ == seq![digit_char(d as nat)],
{
    proof {
        reveal_strlit("0");
        reveal_strlit("1");
        reveal_strlit("2");
        reveal_strlit("3");
        reveal_strlit("4");
        reveal_strlit("5");
        reveal_strlit("6");
        reveal_strlit("7");
        reveal_strlit("8");
        reveal_strlit("9");
    }
    match d {
        0 => "0",
        1 => "1",
        2 => "2",
        3 => "3",
        4 => "4",
        5 => "5",
        6 => "6",
        7 => "7",
        8 => "8",
        _ => "9",
    }
}

/// Writes `n` in decimal.
pub fn decimal_string(n: u64) -> (r: String)
    ensures
        r@ == dec_chars(n as nat),
{
    let mut rev: Vec<u64> = Vec::new();
    let mut m = n;
    rev.push(m % 10);
    m = m / 10;
    proof {
        if n < 10 {
            assert(rev_digit_chars(rev@) =~= dec_chars(n as nat));
        } else {
            assert(dec_chars(m as nat).push(digit_char((n % 10) as nat)) =~= dec_chars(m as nat)
                + rev_digit_chars(rev@));
        }
    }
    while m > 0
        invariant
            forall|k: int| 0 <= k < rev@.len() ==> #[trigger] rev@[k] < 10,
            rev@.len() >= 1,
            dec_chars(n as nat) == (if m > 0 {
                dec_chars(m as nat) + rev_digit_chars(rev@)
            } else {
                rev_digit_chars(rev@)
            }),
        decreases m,
    {
        let ghost m0 = m;
        let ghost rev0 = rev@;
        let d = m % 10;
        rev.push(d);
        m = m / 10;
        proof {
            assert(rev_digit_chars(rev@) =~= seq![digit_char(d as nat)] + rev_digit_chars(rev0));
            if m0 < 10 {
                assert(dec_chars(m0 as nat) =~= seq![digit_char(m0 as nat)]);
                assert(dec_chars(n as nat) =~= rev_digit_chars(rev@));
            } else {
                assert(dec_chars(m0 as nat) =~= dec_chars(m as nat) + seq![digit_char(
                    d as nat,
                )]);
                assert(dec_chars(n as nat) =~= dec_chars(m as nat) + rev_digit_chars(rev@));
            }
        }
    }
    let mut acc = String::new();
    let len = rev.len();
    let mut j = len;
    while j > 0
        invariant
            j <= len,
            len == rev@.len(),
            forall|k: int| 0 <= k < rev@.len() ==> #[trigger] rev@[k] < 10,
            dec_chars(n as nat) == rev_digit_chars(rev@),
            acc@ == rev_digit_chars(rev@).take((len - j) as int),
        decreases j,
    {
        j = j - 1;
        let ds = digit_str(rev[j]);
        acc.append(ds);
        proof {
            assert(acc@ =~= rev_digit_chars(rev@).take((len - j) as int));
        }
    }
    proof {
        assert(rev_digit_chars(rev@).take(len as int) =~= rev_digit_chars(rev@));
    }
    acc
}

} // verus!
