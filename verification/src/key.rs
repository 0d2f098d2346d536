//! Storage keys: ordered sequences of text segments, written as a path with
//! `/` between the segments.

use vstd::prelude::*;

verus! {

/// A storage key. Its segments are read by position.
#[derive(Debug)]
pub struct Key {
    pub segments: Vec<String>,
}

/// The texts of a vector of segments.
pub open spec fn segment_texts(segments: Seq<String>) -> Seq<Seq<char>> {
    segments.map_values(|s: String| s@)
}

impl View for Key {
    type V = Seq<Seq<char>>;

    open spec fn view(&self) -> Seq<Seq<char>> {
        segment_texts(self.segments@)
    }
}

/// The segments of a path: the runs of characters between its `/`
/// separators. A path without a separator is one segment, and so is the
/// empty path.
pub open spec fn split_path(path: Seq<char>) -> Seq<Seq<char>>
    decreases path.len(),
{
    if path.len() == 0 {
        seq![Seq::empty()]
    } else {
        let before = split_path(path.drop_last());
        if path.last() == '/' {
            before.push(Seq::empty())
        } else {
            before.drop_last().push(before.last().push(path.last()))
        }
    }
}

/// The path of a sequence of segments: the segments with `/` between them.
pub open spec fn join_path(segments: Seq<Seq<char>>) -> Seq<char>
    decreases segments.len(),
{
    if segments.len() == 0 {
        Seq::empty()
    } else if segments.len() == 1 {
        segments[0]
    } else {
        join_path(segments.drop_last()) + seq!['/'] + segments.last()
    }
}

/// The first segment of every key of the protocol.
pub open spec fn ibc_prefix() -> Seq<char> {
    "IBC"@
}

impl Key {
    /// The key of the protocol's part of the store that a path names: the
    /// protocol's prefix, then the segments of the path.
    pub fn ibc_key(path: &str) -> (key: Key)
        ensures
            key@ == seq![ibc_prefix()] + split_path(path@),
    {
        let mut key = Key::parse(path);
        key.segments.insert(0, "IBC".to_owned());
        key
    }

    /// The key whose segments are those of a path.
    pub fn parse(path: &str) -> (key: Key)
        ensures
            key@ == split_path(path@),
    {
        let mut segments: Vec<String> = Vec::new();
        let n = path.unicode_len();
        let mut start: usize = 0;
        let mut i: usize = 0;
        assert(path@.take(0) =~= Seq::<char>::empty());
        for c in it: path.chars()
            invariant
                it.seq() == path@,
                n == path@.len(),
                i == it.index(),
                start <= i <= n,
                split_path(path@.take(i as int)) == segment_texts(segments@).push(
                    path@.subrange(start as int, i as int),
                ),
        {
            let ghost current = path@.subrange(start as int, i as int);
            assert(path@.take(i + 1).drop_last() =~= path@.take(i as int));
            if c == '/' {
                let segment = path.substring_char(start, i).to_owned();
                segments.push(segment);
                start = i + 1;
                assert(path@.subrange(i + 1, i + 1) =~= Seq::<char>::empty());
            } else {
                assert(path@.subrange(start as int, i + 1) =~= current.push(c));
            }
            i = i + 1;
        }
        assert(path@.take(n as int) =~= path@);
        let segment = path.substring_char(start, n).to_owned();
        segments.push(segment);
        Key { segments }
    }

    /// The path of this key: its segments with `/` between them.
    pub fn to_text(&self) -> (path: String)
        ensures
            path@ == join_path(self@),
    {
        let mut path = String::new();
        let n = self.segments.len();
        let mut i: usize = 0;
        while i < n
            invariant
                n == self.segments.len(),
                i <= n,
                path@ == join_path(self@.take(i as int)),
            decreases n - i,
        {
            assert(self@.take(i + 1).drop_last() =~= self@.take(i as int));
            if i > 0 {
                proof {
                    reveal_strlit("/");
                }
                path.append("/");
            }
            path.append(self.segments[i].as_str());
            i = i + 1;
        }
        assert(self@.take(n as int) =~= self@);
        path
    }
}

impl Clone for Key {
    fn clone(&self) -> (key: Key)
        ensures
            key@ == self@,
    {
        let mut segments: Vec<String> = Vec::new();
        let n = self.segments.len();
        let mut i: usize = 0;
        while i < n
            invariant
                n == self.segments.len(),
                i <= n,
                segment_texts(segments@) == self@.take(i as int),
            decreases n - i,
        {
            let ghost before = segment_texts(segments@);
            let segment = self.segments[i].clone();
            segments.push(segment);
            assert(self@.take(i + 1) =~= before.push(self@[i as int]));
            i = i + 1;
        }
        Key { segments }
    }
}

impl PartialEq for Key {
    /// Whether two keys have the same segments.
    fn eq(&self, other: &Key) -> (r: bool) {
        let n = self.segments.len();
        if n != other.segments.len() {
            assert(self@.len() != other@.len());
            return false;
        }
        let mut i: usize = 0;
        while i < n
            invariant
                n == self.segments.len(),
                n == other.segments.len(),
                i <= n,
                forall|j: int| 0 <= j < i ==> self@[j] == other@[j],
            decreases n - i,
        {
            if self.segments[i] != other.segments[i] {
                assert(self@[i as int] != other@[i as int]);
                return false;
            }
            i = i + 1;
        }
        assert(self@ =~= other@);
        true
    }
}

impl Eq for Key {

}

impl vstd::std_specs::cmp::PartialEqSpecImpl for Key {
    open spec fn obeys_eq_spec() -> bool {
        true
    }

    open spec fn eq_spec(&self, other: &Key) -> bool {
        self@ == other@
    }
}

/// A path without a separator is a single segment.
pub proof fn lemma_split_plain(path: Seq<char>)
    requires
        !path.contains('/'),
    ensures
        split_path(path) == seq![path],
    decreases path.len(),
{
    if path.len() == 0 {
        assert(path =~= Seq::<char>::empty());
    } else {
        let front = path.drop_last();
        lemma_split_plain(front);
        assert(split_path(front).last().push(path.last()) =~= path);
    }
}

/// A separator followed by a text that holds none starts one more segment,
/// which is that text.
pub proof fn lemma_split_last_segment(front: Seq<char>, last: Seq<char>)
    requires
        !last.contains('/'),
    ensures
        split_path(front + seq!['/'] + last) == split_path(front).push(last),
    decreases last.len(),
{
    let path = front + seq!['/'] + last;
    if last.len() == 0 {
        assert(path.drop_last() =~= front);
        assert(last =~= Seq::<char>::empty());
    } else {
        let shorter = last.drop_last();
        lemma_split_last_segment(front, shorter);
        assert(path.drop_last() =~= front + seq!['/'] + shorter);
        assert(shorter.push(last.last()) =~= last);
    }
}

/// The segments of a path hold no separator, there is at least one, and
/// with the separators back between them they are the path.
pub proof fn lemma_join_split(path: Seq<char>)
    ensures
        split_path(path).len() > 0,
        forall|i: int|
            0 <= i < split_path(path).len() ==> !(#[trigger] split_path(path)[i]).contains('/'),
        join_path(split_path(path)) == path,
    decreases path.len(),
{
    if path.len() > 0 {
        let front = path.drop_last();
        let before = split_path(front);
        lemma_join_split(front);
        if path.last() == '/' {
            assert(before.push(Seq::empty()).drop_last() =~= before);
        } else {
            let grown = before.drop_last().push(before.last().push(path.last()));
            assert(grown.drop_last() =~= before.drop_last());
            assert(front.push(path.last()) =~= path);
        }
    }
}

/// A key is read back from its path: where a key has a segment, and no
/// segment holds a separator, the segments of its path are its own.
pub proof fn lemma_split_join(segments: Seq<Seq<char>>)
    requires
        segments.len() > 0,
        forall|i: int| 0 <= i < segments.len() ==> !(#[trigger] segments[i]).contains('/'),
    ensures
        split_path(join_path(segments)) == segments,
    decreases segments.len(),
{
    if segments.len() == 1 {
        lemma_split_plain(segments[0]);
    } else {
        let front = segments.drop_last();
        lemma_split_join(front);
        lemma_split_last_segment(join_path(front), segments.last());
    }
}

} // verus!
