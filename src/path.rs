use vstd::prelude::*;
use vstd::std_specs::iter::IteratorSpec;

verus! {

/// A filesystem path: whether it starts at the root, and its components
/// (names between separators), in order.
#[derive(Debug, Clone, PartialEq, Eq)]
pub struct FsPath {
    pub absolute: bool,
    pub parts: Vec<String>,
}

/// A path as Verus sees it: the root flag and the text of each component.
pub type PathView = (bool, Seq<Seq<char>>);

/// The text of each component.
pub open spec fn texts(parts: Seq<String>) -> Seq<Seq<char>> {
    parts.map_values(|s: String| s@)
}

impl View for FsPath {
    type V = PathView;

    open spec fn view(&self) -> PathView {
        (self.absolute, texts(self.parts@))
    }
}

/// The components joined by `/`.
pub open spec fn joined(parts: Seq<Seq<char>>) -> Seq<char>
    decreases parts.len(),
{
    if parts.len() == 0 {
        Seq::empty()
    } else if parts.len() == 1 {
        parts[0]
    } else {
        joined(parts.drop_last()) + seq!['/'] + parts.last()
    }
}

/// The text of a path: a leading `/` for an absolute path, then the
/// components joined by `/`.
pub open spec fn rendered(p: PathView) -> Seq<char> {
    if p.0 {
        seq!['/'] + joined(p.1)
    } else {
        joined(p.1)
    }
}

/// The path that results from joining `path` onto `base`: an absolute
/// `path` replaces `base`.
pub open spec fn joined_path(base: PathView, path: PathView) -> PathView {
    if path.0 {
        path
    } else {
        (base.0, base.1 + path.1)
    }
}

/// Copies the components one by one.
fn copy_parts(parts: &Vec<String>) -> (r: Vec<String>)
    ensures
        r@ == parts@,
{
    let mut r: Vec<String> = Vec::new();
    let mut i: usize = 0;
    while i < parts.len()
        invariant
            i <= parts.len(),
            r@ == parts@.subrange(0, i as int),
        decreases parts.len() - i,
    {
        r.push(parts[i].clone());
        i = i + 1;
    }
    assert(r@ =~= parts@);
    r
}

impl FsPath {
    /// A relative path made of the given components.
    pub fn relative(parts: Vec<String>) -> (r: FsPath)
        ensures
            r@ == (false, texts(parts@)),
    {
        FsPath { absolute: false, parts }
    }

    /// An absolute path made of the given components.
    pub fn absolute(parts: Vec<String>) -> (r: FsPath)
        ensures
            r@ == (true, texts(parts@)),
    {
        FsPath { absolute: true, parts }
    }

    /// The empty relative path.
    pub fn empty() -> (r: FsPath)
        ensures
            r@ == (false, Seq::<Seq<char>>::empty()),
    {
        assert(texts(Seq::<String>::empty()) =~= Seq::<Seq<char>>::empty());
        FsPath { absolute: false, parts: Vec::new() }
    }

    /// An equal path, held separately.
    pub fn duplicate(&self) -> (r: FsPath)
        ensures
            r@ == self@,
    {
        FsPath { absolute: self.absolute, parts: copy_parts(&self.parts) }
    }

    /// This path with one more component at its end.
    pub fn child(&self, name: &String) -> (r: FsPath)
        ensures
            r@ == (self.absolute, self@.1.push(name@)),
    {
        let mut parts = copy_parts(&self.parts);
        parts.push(name.clone());
        assert(texts(parts@) =~= self@.1.push(name@));
        FsPath { absolute: self.absolute, parts }
    }

    /// The text of the path, with `/` between components.
    pub fn render(&self) -> (r: String)
        ensures
            r@ == rendered(self@),
    {
        let mut s = String::new();
        if self.absolute {
            s.append("/");
        }
        let ghost start = s@;
        proof {
            reveal_strlit("/");
        }
        let mut i: usize = 0;
        while i < self.parts.len()
            invariant
                i <= self.parts.len(),
                start == (if self.absolute { seq!['/'] } else { Seq::<char>::empty() }),
                s@ == start + joined(self@.1.subrange(0, i as int)),
            decreases self.parts.len() - i,
        {
            let ghost prev = self@.1.subrange(0, i as int);
            let ghost next = self@.1.subrange(0, i as int + 1);
            assert(next.drop_last() =~= prev);
            assert(next.last() == self.parts@[i as int]@);
            proof {
                reveal_strlit("/");
            }
            if i > 0 {
                s.append("/");
            }
            s.append(self.parts[i].as_str());
            proof {
                if i == 0 {
                    assert(joined(prev) =~= Seq::<char>::empty());
                    assert(s@ =~= start + joined(next));
                } else {
                    assert(s@ =~= start + joined(next));
                }
            }
            i = i + 1;
        }
        assert(self@.1.subrange(0, self@.1.len() as int) =~= self@.1);
        if self.absolute {
            assert(s@ =~= rendered(self@));
        } else {
            assert(s@ =~= rendered(self@));
        }
        s
    }
}

/// Whether the path starts at the root.
pub fn is_absolute(path: &FsPath) -> (r: bool)
    ensures
        r == path.absolute,
{
    path.absolute
}

/// The path without its last component; none for a path without components.
pub fn parent_dir(path: &FsPath) -> (r: Option<FsPath>)
    ensures
        path.parts@.len() == 0 ==> r is None,
        path.parts@.len() > 0 ==> (r matches Some(q) && q@ == (path.absolute, path@.1.drop_last())),
{
    if path.parts.len() == 0 {
        None
    } else {
        let mut parts = copy_parts(&path.parts);
        parts.pop();
        assert(texts(parts@) =~= path@.1.drop_last());
        Some(FsPath { absolute: path.absolute, parts })
    }
}

/// The last component; none for a path without components.
pub fn file_name(path: &FsPath) -> (r: Option<String>)
    ensures
        path.parts@.len() == 0 ==> r is None,
        path.parts@.len() > 0 ==> r == Some(path.parts@.last()),
{
    let n = path.parts.len();
    if n == 0 {
        None
    } else {
        Some(path.parts[n - 1].clone())
    }
}

/// `path` joined onto `base`: the components of both, or `path` itself
/// where it is absolute.
pub fn join_paths(base: &FsPath, path: &FsPath) -> (r: FsPath)
    ensures
        r@ == joined_path(base@, path@),
{
    if path.absolute {
        path.duplicate()
    } else {
        let mut parts = copy_parts(&base.parts);
        let mut i: usize = 0;
        while i < path.parts.len()
            invariant
                i <= path.parts.len(),
                parts@ == base.parts@ + path.parts@.subrange(0, i as int),
            decreases path.parts.len() - i,
        {
            parts.push(path.parts[i].clone());
            assert(parts@ =~= base.parts@ + path.parts@.subrange(0, i as int + 1));
            i = i + 1;
        }
        assert(path.parts@.subrange(0, path.parts@.len() as int) =~= path.parts@);
        assert(texts(parts@) =~= base@.1 + path@.1);
        FsPath { absolute: base.absolute, parts }
    }
}

/// The UTF-16 code units of one character.
pub open spec fn utf16_char(c: char) -> Seq<u16> {
    let v = c as u32;
    if v < 0x1_0000 {
        seq![v as u16]
    } else if v <= 0x10_FFFF {
        let w = (v - 0x1_0000) as u32;
        seq![(0xD800 + w / 0x400) as u16, (0xDC00 + w % 0x400) as u16]
    } else {
        Seq::empty()
    }
}

/// The UTF-16 code units of a text.
pub open spec fn utf16(s: Seq<char>) -> Seq<u16>
    decreases s.len(),
{
    if s.len() == 0 {
        Seq::empty()
    } else {
        utf16(s.drop_last()) + utf16_char(s.last())
    }
}

fn push_utf16(out: &mut Vec<u16>, c: char)
    ensures
        final(out)@ == old(out)@ + utf16_char(c),
{
    let v = c as u32;
    if v < 0x1_0000 {
        out.push(v as u16);
    } else if v <= 0x10_FFFF {
        let w = v - 0x1_0000;
        out.push((0xD800 + w / 0x400) as u16);
        out.push((0xDC00 + w % 0x400) as u16);
    }
    assert(final(out)@ =~= old(out)@ + utf16_char(c));
}

/// A text in UTF-16, ended by a zero unit, as wide-character system
/// interfaces take it.
pub fn to_wide_string(s: &str) -> (r: Vec<u16>)
    ensures
        r@ == utf16(s@).push(0u16),
{
    broadcast use vstd::string::group_string_axioms;
    let ghost all = s@;
    let mut it = s.chars();
    let mut out: Vec<u16> = Vec::new();
    assert(it.remaining() == all);
    assert(all.subrange(0, 0) =~= Seq::<char>::empty());
    assert(all.subrange(0, all.len() as int) =~= all);
    loop
        invariant
            it.remaining().len() <= all.len(),
            all.subrange(all.len() - it.remaining().len(), all.len() as int) == it.remaining(),
            out@ == utf16(all.subrange(0, all.len() - it.remaining().len())),
            it.decrease() is Some,
        ensures
            out@ == utf16(all),
        decreases it.decrease()->0,
    {
        let ghost before = it.remaining();
        let ghost k = all.len() - before.len();
        match it.next() {
            None => {
                assert(before.len() == 0);
                assert(all.subrange(0, all.len() as int) =~= all);
                break;
            },
            Some(c) => {
                assert(c == all[k]);
                let ghost next = all.subrange(0, k + 1);
                assert(next.drop_last() =~= all.subrange(0, k));
                push_utf16(&mut out, c);
                assert(it.remaining() =~= all.subrange(k + 1, all.len() as int));
            },
        }
    }
    out.push(0u16);
    out
}

/// The text of a path in UTF-16, ended by a zero unit.
pub fn path_to_wide_string(path: &FsPath) -> (r: Vec<u16>)
    ensures
        r@ == utf16(rendered(path@)).push(0u16),
{
    let t = path.render();
    to_wide_string(t.as_str())
}

} // verus!
