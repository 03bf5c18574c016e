use vstd::prelude::*;

use crate::text::string_of;

verus! {

/// The character that separates the components of a path.
pub open spec fn sep() -> char {
    '/'
}

/// A single path component: non-empty and free of the separator.
pub open spec fn is_part(c: Seq<char>) -> bool {
    c.len() > 0 && forall|k: int| 0 <= k < c.len() ==> c[k] != sep()
}

/// Whether the component `cur`, just read, is kept after the components
/// `done`: empty ones are dropped, and so is `.`, except as the first
/// component of a path that does not start at the root.
pub open spec fn keeps(done: Seq<Seq<char>>, cur: Seq<char>, rooted: bool) -> bool {
    cur.len() > 0 && (cur != seq!['.'] || (!rooted && done.len() == 0))
}

/// Components finished so far, and the component being read, after the
/// characters of `p` have been read from left to right.
pub open spec fn split_state(p: Seq<char>, rooted: bool) -> (Seq<Seq<char>>, Seq<char>)
    decreases p.len(),
{
    if p.len() == 0 {
        (Seq::empty(), Seq::empty())
    } else {
        let prev = split_state(p.drop_last(), rooted);
        if p.last() == sep() {
            (if keeps(prev.0, prev.1, rooted) { prev.0.push(prev.1) } else { prev.0 }, Seq::empty())
        } else {
            (prev.0, prev.1.push(p.last()))
        }
    }
}

/// The components of `p`, in order. Repeated and trailing separators name
/// no component, and `.` is dropped but at the start of a relative path.
pub open spec fn components(p: Seq<char>) -> Seq<Seq<char>> {
    let st = split_state(p, is_rooted(p));
    if keeps(st.0, st.1, is_rooted(p)) {
        st.0.push(st.1)
    } else {
        st.0
    }
}

pub open spec fn is_rooted(p: Seq<char>) -> bool {
    p.len() > 0 && p[0] == sep()
}

/// A path as the library reasons about it.
pub ghost struct PathModel {
    pub rooted: bool,
    pub parts: Seq<Seq<char>>,
}

/// `child` is `parent` or lies below it, compared component by component,
/// the root counting as the first component: the empty path lies above
/// every path.
pub open spec fn is_within(child: PathModel, parent: PathModel) -> bool {
    &&& (child.rooted == parent.rooted || (!parent.rooted && parent.parts.len() == 0))
    &&& parent.parts.len() <= child.parts.len()
    &&& child.parts.subrange(0, parent.parts.len() as int) == parent.parts
}

/// `path` relative to `base`, as `relative_to` computes it.
pub open spec fn rel_model(path: PathModel, base: PathModel) -> PathModel {
    if is_within(path, base) {
        PathModel {
            rooted: path.rooted && !base.rooted,
            parts: path.parts.subrange(base.parts.len() as int, path.parts.len() as int),
        }
    } else {
        path
    }
}

pub open spec fn join_parts(parts: Seq<Seq<char>>) -> Seq<char>
    decreases parts.len(),
{
    if parts.len() == 0 {
        Seq::empty()
    } else if parts.len() == 1 {
        parts[0]
    } else {
        join_parts(parts.drop_last()) + seq![sep()] + parts.last()
    }
}

/// The text of a path: its components separated by `/`, with a leading `/`
/// when it is rooted.
pub open spec fn render_spec(m: PathModel) -> Seq<char> {
    if m.rooted {
        seq![sep()] + join_parts(m.parts)
    } else {
        join_parts(m.parts)
    }
}

/// A parsed path: whether it starts at the root, and its components.
#[derive(Debug, PartialEq, Eq)]
pub struct VaultPath {
    pub rooted: bool,
    pub parts: Vec<Vec<char>>,
}

impl View for VaultPath {
    type V = PathModel;

    open spec fn view(&self) -> PathModel {
        PathModel { rooted: self.rooted, parts: self.parts@.map_values(|v: Vec<char>| v@) }
    }
}

pub open spec fn model_wf(m: PathModel) -> bool {
    forall|i: int| 0 <= i < m.parts.len() ==> #[trigger] is_part(m.parts[i])
}

/// A fresh copy of `v`.
pub fn copy_chars(v: &Vec<char>) -> (r: Vec<char>)
    ensures
        r@ == v@,
{
    let mut r: Vec<char> = Vec::new();
    let mut i: usize = 0;
    while i < v.len()
        invariant
            i <= v@.len(),
            r@ =~= v@.take(i as int),
        decreases v.len() - i,
    {
        r.push(v[i]);
        i = i + 1;
    }
    r
}

fn keep_part(done: &Vec<Vec<char>>, cur: &Vec<char>, rooted: bool) -> (r: bool)
    ensures
        r == keeps(done@.map_values(|v: Vec<char>| v@), cur@, rooted),
{
    if cur.len() == 0 {
        return false;
    }
    let dot = cur.len() == 1 && cur[0] == '.';
    assert(dot == (cur@ == seq!['.'])) by {
        if cur@.len() == 1 && cur@[0] == '.' {
            assert(cur@ =~= seq!['.']);
        }
    }
    !dot || (!rooted && done.len() == 0)
}

/// Copies of the first `n` components.
fn copy_parts(parts: &Vec<Vec<char>>, n: usize) -> (r: Vec<Vec<char>>)
    requires
        n <= parts@.len(),
    ensures
        r@.map_values(|v: Vec<char>| v@) =~= parts@.map_values(|v: Vec<char>| v@).take(n as int),
{
    let r = copy_range(parts, 0, n);
    assert(parts@.map_values(|v: Vec<char>| v@).subrange(0, n as int) =~= parts@.map_values(
        |v: Vec<char>| v@,
    ).take(n as int));
    r
}

/// Copies of the components from `from` up to `to`.
fn copy_range(parts: &Vec<Vec<char>>, from: usize, to: usize) -> (r: Vec<Vec<char>>)
    requires
        from <= to <= parts@.len(),
    ensures
        r@.map_values(|v: Vec<char>| v@) =~= parts@.map_values(|v: Vec<char>| v@).subrange(
            from as int,
            to as int,
        ),
{
    let mut r: Vec<Vec<char>> = Vec::new();
    let mut i: usize = from;
    while i < to
        invariant
            from <= i <= to <= parts@.len(),
            r@.map_values(|v: Vec<char>| v@) =~= parts@.map_values(|v: Vec<char>| v@).subrange(
                from as int,
                i as int,
            ),
        decreases to - i,
    {
        let ghost before = r@;
        r.push(copy_chars(&parts[i]));
        assert(r@.map_values(|v: Vec<char>| v@) =~= before.map_values(|v: Vec<char>| v@).push(
            parts@[i as int]@,
        ));
        i = i + 1;
    }
    r
}

/// Equality of two character sequences.
pub fn chars_eq(a: &Vec<char>, b: &Vec<char>) -> (r: bool)
    ensures
        r == (a@ == b@),
{
    if a.len() != b.len() {
        return false;
    }
    let mut i: usize = 0;
    while i < a.len()
        invariant
            a@.len() == b@.len(),
            i <= a@.len(),
            forall|k: int| 0 <= k < i ==> a@[k] == b@[k],
        decreases a.len() - i,
    {
        if a[i] != b[i] {
            return false;
        }
        i = i + 1;
    }
    assert(a@ =~= b@);
    true
}

impl VaultPath {
    pub open spec fn wf(&self) -> bool {
        model_wf(self@)
    }

    /// Reads a path from its text.
    pub fn parse(s: &str) -> (r: VaultPath)
        ensures
            r.wf(),
            r@.rooted == is_rooted(s@),
            r@.parts == components(s@),
    {
        let cs = crate::text::chars_of(s);
        let rooted = cs.len() > 0 && cs[0] == '/';
        let mut parts: Vec<Vec<char>> = Vec::new();
        let mut cur: Vec<char> = Vec::new();
        let mut i: usize = 0;
        while i < cs.len()
            invariant
                i <= cs@.len(),
                cs@ == s@,
                rooted == is_rooted(s@),
                split_state(cs@.take(i as int), rooted) == (
                parts@.map_values(|v: Vec<char>| v@),
                cur@,
                ),
                forall|k: int| 0 <= k < parts@.len() ==> #[trigger] is_part(parts@[k]@),
                forall|k: int| 0 <= k < cur@.len() ==> cur@[k] != sep(),
            decreases cs.len() - i,
        {
            let ghost before = parts@;
            assert(cs@.take(i + 1).drop_last() =~= cs@.take(i as int));
            let c = cs[i];
            if c == '/' {
                if keep_part(&parts, &cur, rooted) {
                    parts.push(cur);
                    assert(parts@.map_values(|v: Vec<char>| v@) =~= before.map_values(
                        |v: Vec<char>| v@,
                    ).push(parts@.last()@));
                }
                cur = Vec::new();
            } else {
                cur.push(c);
            }
            i = i + 1;
        }
        assert(cs@.take(i as int) =~= cs@);
        if keep_part(&parts, &cur, rooted) {
            let ghost before = parts@;
            parts.push(cur);
            assert(parts@.map_values(|v: Vec<char>| v@) =~= before.map_values(|v: Vec<char>| v@).push(
                parts@.last()@,
            ));
        }
        VaultPath { rooted, parts }
    }

    /// The text of this path.
    pub fn render(&self) -> (r: String)
        ensures
            r@ == render_spec(self@),
    {
        let mut out: Vec<char> = Vec::new();
        let mut i: usize = 0;
        let ghost m = self@.parts;
        while i < self.parts.len()
            invariant
                i <= self.parts@.len(),
                m == self@.parts,
                out@ == join_parts(m.take(i as int)),
            decreases self.parts.len() - i,
        {
            assert(m.take(i + 1).drop_last() =~= m.take(i as int));
            if i > 0 {
                out.push('/');
            }
            let part = &self.parts[i];
            let mut k: usize = 0;
            let ghost start = out@;
            while k < part.len()
                invariant
                    k <= part@.len(),
                    out@ == start + part@.take(k as int),
                decreases part.len() - k,
            {
                out.push(part[k]);
                k = k + 1;
                assert(out@ =~= start + part@.take(k as int));
            }
            assert(part@.take(k as int) =~= part@);
            proof {
                if i == 0 {
                    assert(start =~= Seq::<char>::empty());
                    assert(out@ =~= m.take(1)[0]);
                }
            }
            i = i + 1;
        }
        assert(m.take(i as int) =~= m);
        let mut full: Vec<char> = Vec::new();
        if self.rooted {
            full.push('/');
        }
        let mut k: usize = 0;
        let ghost head = full@;
        while k < out.len()
            invariant
                k <= out@.len(),
                full@ == head + out@.take(k as int),
            decreases out.len() - k,
        {
            full.push(out[k]);
            k = k + 1;
            assert(full@ =~= head + out@.take(k as int));
        }
        assert(out@.take(k as int) =~= out@);
        proof {
            if !self.rooted {
                assert(full@ =~= out@);
            }
        }
        string_of(&full)
    }

    /// The directory that holds this path; `None` when it has no component.
    pub fn parent(&self) -> (r: Option<VaultPath>)
        requires
            self.wf(),
        ensures
            r is None <==> self@.parts.len() == 0,
            r matches Some(q) ==> q.wf() && q@.rooted == self@.rooted && q@.parts
                == self@.parts.drop_last(),
    {
        if self.parts.len() == 0 {
            return None;
        }
        let parts = copy_parts(&self.parts, self.parts.len() - 1);
        let q = VaultPath { rooted: self.rooted, parts };
        assert(q@.parts =~= self@.parts.drop_last());
        Some(q)
    }

    /// The last component; `None` when there is none.
    pub fn file_name(&self) -> (r: Option<Vec<char>>)
        ensures
            r is None <==> self@.parts.len() == 0,
            r matches Some(n) ==> n@ == self@.parts.last(),
    {
        if self.parts.len() == 0 {
            None
        } else {
            Some(copy_chars(&self.parts[self.parts.len() - 1]))
        }
    }

    /// This path with one more component.
    pub fn join(&self, name: &Vec<char>) -> (r: VaultPath)
        requires
            self.wf(),
            is_part(name@),
        ensures
            r.wf(),
            r@.rooted == self@.rooted,
            r@.parts == self@.parts.push(name@),
    {
        let mut parts = copy_parts(&self.parts, self.parts.len());
        let ghost before = parts@;
        parts.push(copy_chars(name));
        let r = VaultPath { rooted: self.rooted, parts };
        assert(self@.parts.take(self@.parts.len() as int) =~= self@.parts);
        assert(r@.parts =~= before.map_values(|v: Vec<char>| v@).push(name@));
        assert(r@.parts =~= self@.parts.push(name@));
        r
    }

    /// Both paths name the same place, component by component.
    pub fn same_as(&self, other: &VaultPath) -> (r: bool)
        ensures
            r == (self@ == other@),
    {
        if self.rooted != other.rooted || self.parts.len() != other.parts.len() {
            proof {
                if self@ == other@ {
                    assert(self@.parts.len() == other@.parts.len());
                }
            }
            return false;
        }
        let r = is_descendant(self, other);
        proof {
            if r {
                assert(self@.parts =~= other@.parts);
            }
            if self@ == other@ {
                assert(other@.parts.subrange(0, self@.parts.len() as int) =~= self@.parts);
            }
        }
        r
    }

    /// This path relative to `base`: the components below `base` when it
    /// lies within `base`, else the path itself.
    pub fn relative_to(&self, base: &VaultPath) -> (r: VaultPath)
        requires
            self.wf(),
        ensures
            r.wf(),
            r@ == rel_model(self@, base@),
    {
        if is_descendant(base, self) {
            let parts = copy_range(&self.parts, base.parts.len(), self.parts.len());
            VaultPath { rooted: self.rooted && !base.rooted, parts }
        } else {
            let parts = copy_range(&self.parts, 0, self.parts.len());
            assert(self@.parts.subrange(0, self@.parts.len() as int) =~= self@.parts);
            VaultPath { rooted: self.rooted, parts }
        }
    }

    /// Whether some component is the metadata directory's name.
    pub fn in_metadata_dir(&self) -> (r: bool)
        ensures
            r == touches_metadata(self@),
    {
        let name = metadata_dir_name();
        let mut i: usize = 0;
        while i < self.parts.len()
            invariant
                i <= self.parts@.len(),
                name@ == metadata_name(),
                forall|k: int| 0 <= k < i ==> self@.parts[k] != metadata_name(),
            decreases self.parts.len() - i,
        {
            if chars_eq(&self.parts[i], &name) {
                assert(self@.parts[i as int] == metadata_name());
                return true;
            }
            i = i + 1;
        }
        false
    }
}

/// The name of the directory that holds the vault's own metadata.
pub open spec fn metadata_name() -> Seq<char> {
    seq!['.', 'n', 'o', 't', 'e', 'x', 'i', 'a']
}

/// The path passes through the metadata directory.
pub open spec fn touches_metadata(m: PathModel) -> bool {
    exists|i: int| 0 <= i < m.parts.len() && m.parts[i] == metadata_name()
}

pub fn metadata_dir_name() -> (r: Vec<char>)
    ensures
        r@ == metadata_name(),
{
    let r = vec!['.', 'n', 'o', 't', 'e', 'x', 'i', 'a'];
    assert(r@ =~= metadata_name());
    r
}

/// Whether `child` is `parent` or lies below it, component by component.
pub fn is_descendant(parent: &VaultPath, child: &VaultPath) -> (r: bool)
    ensures
        r == is_within(child@, parent@),
{
    if (parent.rooted != child.rooted && (parent.rooted || parent.parts.len() > 0))
        || parent.parts.len() > child.parts.len() {
        return false;
    }
    let n = parent.parts.len();
    let mut i: usize = 0;
    while i < n
        invariant
            i <= n,
            n == parent@.parts.len(),
            n <= child@.parts.len(),
            forall|k: int| 0 <= k < i ==> child@.parts[k] == parent@.parts[k],
        decreases n - i,
    {
        if !chars_eq(&child.parts[i], &parent.parts[i]) {
            assert(child@.parts.subrange(0, n as int)[i as int] != parent@.parts[i as int]);
            return false;
        }
        i = i + 1;
    }
    assert(child@.parts.subrange(0, n as int) =~= parent@.parts);
    true
}

} // verus!
