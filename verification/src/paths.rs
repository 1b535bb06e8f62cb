//! Unix file paths, as the byte strings that the system takes.

use vstd::prelude::*;
use vstd::string::*;
use vstd::utf8::*;

verus! {

/// The byte that separates the components of a path.
pub const SLASH: u8 = 47;

/// The byte of a full stop.
pub const DOT: u8 = 46;

/// A Unix path. Paths need not be valid UTF-8, so this is the raw byte string.
#[derive(Debug, PartialEq, Eq)]
pub struct FsPath {
    /// The bytes of the path.
    pub bytes: Vec<u8>,
}

impl View for FsPath {
    type V = Seq<u8>;

    open spec fn view(&self) -> Seq<u8> {
        self.bytes@
    }
}

/// The byte strings of a list of paths.
pub open spec fn paths_view(paths: Seq<FsPath>) -> Seq<Seq<u8>> {
    paths.map_values(|p: FsPath| p@)
}

/// The byte string of a path, if there is one.
pub open spec fn optional_path(path: Option<FsPath>) -> Option<Seq<u8>> {
    match path {
        Some(path) => Some(path@),
        None => None,
    }
}

impl Clone for FsPath {
    fn clone(&self) -> (r: Self)
        ensures
            r@ == self@,
    {
        let bytes = self.bytes.clone();
        assert(bytes@ =~= self.bytes@);
        FsPath { bytes }
    }
}

/// Copies a list of paths.
pub fn copy_paths(paths: &Vec<FsPath>) -> (r: Vec<FsPath>)
    ensures
        paths_view(r@) == paths_view(paths@),
{
    let mut copy: Vec<FsPath> = Vec::new();
    let mut i: usize = 0;
    while i < paths.len()
        invariant
            i <= paths@.len(),
            copy@.len() == i,
            forall|k: int| 0 <= k < i ==> (#[trigger] copy@[k])@ == paths@[k]@,
        decreases paths@.len() - i,
    {
        copy.push(paths[i].clone());
        i = i + 1;
    }
    assert(paths_view(copy@) =~= paths_view(paths@));
    copy
}

/// The path of `name` looked up from the directory `base`: an absolute name
/// stands for itself, and any other is put behind `base` and one separator.
pub open spec fn path_join(base: Seq<u8>, name: Seq<u8>) -> Seq<u8> {
    if name.len() > 0 && name[0] == SLASH {
        name
    } else if base.len() == 0 || base.last() == SLASH {
        base + name
    } else {
        base.push(SLASH) + name
    }
}

/// The stretches of a path between its separators; `n` separators make
/// `n + 1` stretches, some of them perhaps empty.
pub open spec fn segments(path: Seq<u8>) -> Seq<Seq<u8>>
    decreases path.len(),
{
    if path.len() == 0 {
        seq![Seq::<u8>::empty()]
    } else {
        let before = segments(path.drop_last());
        if path.last() == SLASH {
            before.push(Seq::<u8>::empty())
        } else {
            before.drop_last().push(before.last().push(path.last()))
        }
    }
}

/// Whether a path starts at the root of the file system.
pub open spec fn is_absolute(path: Seq<u8>) -> bool {
    path.len() > 0 && path[0] == SLASH
}

/// Whether a segment names anything: an empty one and a lone full stop do not.
pub open spec fn is_name(segment: Seq<u8>) -> bool {
    segment.len() > 0 && segment != seq![DOT]
}

/// The components of a path: the root if the path is absolute, a leading full
/// stop if it begins with one, and the names in between the separators.
/// Repeated and trailing separators and other full stops do not count.
pub open spec fn components(path: Seq<u8>) -> Seq<Seq<u8>> {
    let names = segments(path).filter(|s: Seq<u8>| is_name(s));
    if is_absolute(path) {
        seq![seq![SLASH]] + names
    } else if segments(path)[0] == seq![DOT] {
        seq![seq![DOT]] + names
    } else {
        names
    }
}

/// Whether `path` is `base` itself or lies below it, component by component.
pub open spec fn path_starts_with(path: Seq<u8>, base: Seq<u8>) -> bool {
    components(base).is_prefix_of(components(path))
}

impl FsPath {
    /// The path written as `text`.
    pub fn from_text(text: &str) -> (r: FsPath)
        ensures
            r@ == encode_utf8(text@),
    {
        FsPath { bytes: text.as_bytes_vec() }
    }

    /// The path of `name` looked up from the directory `self`.
    pub fn join(&self, name: &str) -> (r: FsPath)
        ensures
            r@ == path_join(self@, encode_utf8(name@)),
    {
        let name_bytes = name.as_bytes_vec();
        if name_bytes.len() > 0 && name_bytes[0] == SLASH {
            return FsPath { bytes: name_bytes };
        }
        let mut bytes = self.clone().bytes;
        let len: usize = bytes.len();
        if len > 0 && bytes[len - 1] != SLASH {
            bytes.push(SLASH);
        }
        let mut tail = name_bytes;
        bytes.append(&mut tail);
        FsPath { bytes }
    }

    /// Whether `self` is `base` or lies below it, component by component.
    pub fn starts_with(&self, base: &FsPath) -> (r: bool)
        ensures
            r == path_starts_with(self@, base@),
    {
        let own = self.components();
        let wanted = base.components();
        if wanted.len() > own.len() {
            return false;
        }
        let mut i: usize = 0;
        while i < wanted.len()
            invariant
                i <= wanted@.len() <= own@.len(),
                bytes_views(own@) == components(self@),
                bytes_views(wanted@) == components(base@),
                forall|k: int|
                    0 <= k < i ==> #[trigger] components(base@)[k] == components(self@)[k],
            decreases wanted@.len() - i,
        {
            let same = same_bytes(&own[i], &wanted[i]);
            assert(bytes_views(own@)[i as int] == own@[i as int]@);
            assert(bytes_views(wanted@)[i as int] == wanted@[i as int]@);
            if !same {
                return false;
            }
            i = i + 1;
        }
        assert(components(base@) =~= components(self@).subrange(0, components(base@).len() as int));
        true
    }

    fn components(&self) -> (r: Vec<Vec<u8>>)
        ensures
            bytes_views(r@) == components(self@),
    {
        let all = self.segments();
        let mut found: Vec<Vec<u8>> = Vec::new();
        if self.bytes.len() > 0 && self.bytes[0] == SLASH {
            found.push(vec![SLASH]);
            assert(found@[0]@ =~= seq![SLASH]);
        } else if is_lone_dot(&all[0]) {
            found.push(vec![DOT]);
            assert(found@[0]@ =~= seq![DOT]);
        }
        let ghost head = bytes_views(found@);
        let ghost keep = |s: Seq<u8>| is_name(s);
        let mut i: usize = 0;
        proof {
            assert(bytes_views(all@)[0] == all@[0]@);
            if is_absolute(self@) {
                assert(head =~= seq![seq![SLASH]]);
            } else if segments(self@)[0] == seq![DOT] {
                assert(head =~= seq![seq![DOT]]);
            } else {
                assert(head =~= Seq::<Seq<u8>>::empty());
            }
            assert(bytes_views(all@).take(0) =~= Seq::<Seq<u8>>::empty());
            assert(head + Seq::<Seq<u8>>::empty() =~= head);
            reveal(Seq::filter);
        }
        while i < all.len()
            invariant
                i <= all@.len(),
                keep == (|s: Seq<u8>| is_name(s)),
                bytes_views(found@) =~= head + bytes_views(all@).take(i as int).filter(keep),
            decreases all@.len() - i,
        {
            let ghost done = bytes_views(all@).take(i as int);
            let ghost before = bytes_views(found@);
            let segment = all[i].clone();
            assert(segment@ =~= all@[i as int]@);
            proof {
                assert(bytes_views(all@).take(i + 1) =~= done.push(segment@));
                done.lemma_filter_push(segment@, keep);
            }
            if segment.len() > 0 && !is_lone_dot(&segment) {
                found.push(segment);
                assert(bytes_views(found@) =~= before.push(segment@));
            }
            i = i + 1;
        }
        assert(bytes_views(all@).take(i as int) =~= bytes_views(all@));
        assert(bytes_views(found@) =~= components(self@)) by {
            assert(Seq::<Seq<u8>>::empty() + segments(self@).filter(keep) =~= segments(self@).filter(keep));
        }
        found
    }

    fn segments(&self) -> (r: Vec<Vec<u8>>)
        ensures
            bytes_views(r@) == segments(self@),
            r@.len() > 0,
    {
        let mut ended: Vec<Vec<u8>> = Vec::new();
        let mut current: Vec<u8> = Vec::new();
        let mut i: usize = 0;
        assert(segments(self@.take(0)) =~= bytes_views(ended@).push(current@));
        while i < self.bytes.len()
            invariant
                i <= self@.len(),
                segments(self@.take(i as int)) == bytes_views(ended@).push(current@),
            decreases self@.len() - i,
        {
            let byte: u8 = self.bytes[i];
            let ghost before = bytes_views(ended@).push(current@);
            assert(self@.take(i + 1).drop_last() =~= self@.take(i as int));
            assert(before.drop_last() =~= bytes_views(ended@));
            if byte == SLASH {
                ended.push(current);
                current = Vec::new();
                assert(bytes_views(ended@) =~= before);
                assert(current@ =~= Seq::<u8>::empty());
            } else {
                current.push(byte);
            }
            i = i + 1;
        }
        assert(self@.take(i as int) =~= self@);
        let ghost last = current@;
        let ghost init = bytes_views(ended@);
        ended.push(current);
        assert(bytes_views(ended@) =~= init.push(last));
        ended
    }
}

proof fn segments_never_empty(path: Seq<u8>)
    ensures
        segments(path).len() > 0,
        path.len() > 0 && path.last() == SLASH ==> segments(path).len() > 1,
    decreases path.len(),
{
    if path.len() > 0 {
        segments_never_empty(path.drop_last());
    }
}

proof fn segments_grow(path: Seq<u8>, name: Seq<u8>)
    requires
        !name.contains(SLASH),
    ensures
        segments(path + name) == segments(path).drop_last().push(segments(path).last() + name),
    decreases name.len(),
{
    segments_never_empty(path);
    if name.len() == 0 {
        assert(path + name =~= path);
        assert(segments(path).last() + name =~= segments(path).last());
        assert(segments(path) =~= segments(path).drop_last().push(segments(path).last()));
    } else {
        let shorter = name.drop_last();
        assert forall|i: int| 0 <= i < shorter.len() implies shorter[i] != SLASH by {
            assert(name[i] == shorter[i]);
        }
        segments_grow(path, shorter);
        assert((path + name).drop_last() =~= path + shorter);
        let before = segments(path + shorter);
        assert(before.drop_last() =~= segments(path).drop_last());
        assert(before.last() == segments(path).last() + shorter);
        assert(name.last() != SLASH) by {
            assert(name.contains(name[name.len() - 1]));
        }
        assert(before.last().push(name.last()) =~= segments(path).last() + name);
    }
}

/// A name without separators that is not a lone full stop adds exactly one
/// component, itself, to any directory that it is looked up from.
pub proof fn join_adds_one_component(base: Seq<u8>, name: Seq<u8>)
    requires
        name.len() > 0,
        !name.contains(SLASH),
        name != seq![DOT],
    ensures
        components(path_join(base, name)) == components(base).push(name),
        path_starts_with(path_join(base, name), base),
{
    let keep = |s: Seq<u8>| is_name(s);
    let whole = path_join(base, name);
    assert(name[0] != SLASH) by {
        assert(name.contains(name[0]));
    }
    segments_never_empty(base);
    reveal(Seq::filter);
    if base.len() == 0 {
        segments_grow(base, name);
        assert(Seq::<u8>::empty() + name =~= name);
        assert(segments(base).last() =~= Seq::<u8>::empty());
        assert(segments(whole) =~= seq![name]);
        assert(segments(whole).drop_last().filter(keep) =~= Seq::<Seq<u8>>::empty());
        assert(segments(base).drop_last().filter(keep) =~= Seq::<Seq<u8>>::empty());
        assert(segments(base)[0] != seq![DOT]) by {
            assert(segments(base)[0].len() == 0);
        }
        assert(components(base) =~= Seq::<Seq<u8>>::empty());
        assert(components(whole) =~= components(base).push(name));
    } else {
        let stem = if base.last() == SLASH {
            base
        } else {
            base.push(SLASH)
        };
        segments_grow(stem, name);
        segments_never_empty(stem);
        assert(stem.last() == SLASH);
        assert(segments(stem).last() =~= Seq::<u8>::empty());
        assert(Seq::<u8>::empty() + name =~= name);
        let front = segments(stem).drop_last();
        assert(segments(whole) == front.push(name));
        front.lemma_filter_push(name, keep);
        if base.last() == SLASH {
            assert(segments(base) =~= front.push(Seq::<u8>::empty()));
            front.lemma_filter_push(Seq::<u8>::empty(), keep);
        } else {
            assert(stem.drop_last() =~= base);
            assert(front =~= segments(base));
        }
        assert(segments(whole).filter(keep) == segments(base).filter(keep).push(name));
        assert(whole[0] == base[0]);
        assert(segments(whole)[0] == segments(base)[0]);
        assert(components(whole) =~= components(base).push(name));
    }
    assert(components(base) =~= components(whole).subrange(0, components(base).len() as int));
}

/// The bytes of a text hold a separator only where the text does.
pub proof fn encoding_keeps_out_slash(text: Seq<char>)
    requires
        !text.contains('/'),
    ensures
        !encode_utf8(text).contains(SLASH),
    decreases text.len(),
{
    if text.len() > 0 {
        let rest = text.drop_first();
        assert forall|i: int| 0 <= i < rest.len() implies rest[i] != '/' by {
            assert(text[i + 1] == rest[i]);
        }
        encoding_keeps_out_slash(rest);
        let scalar = text[0] as u32;
        assert(text.contains(text[0]));
        char_u32_cast(text[0], scalar);
        assert(scalar != 47) by {
            assert(47u32 as char == '/');
        }
        char_is_scalar(text[0]);
        assert(has_width_1_encoding(scalar) && scalar != 47 ==> leading_byte_width_1(scalar) != 47)
            by (bit_vector);
        assert(leading_byte_width_2(scalar) >= 0x80) by (bit_vector);
        assert(leading_byte_width_3(scalar) >= 0x80) by (bit_vector);
        assert(leading_byte_width_4(scalar) >= 0x80) by (bit_vector);
        assert(last_continuation_byte(scalar) >= 0x80) by (bit_vector);
        assert(second_last_continuation_byte(scalar) >= 0x80) by (bit_vector);
        assert(third_last_continuation_byte(scalar) >= 0x80) by (bit_vector);
        let head = encode_scalar(scalar);
        assert forall|i: int| 0 <= i < encode_utf8(text).len() implies encode_utf8(text)[i]
            != SLASH by {
            if i < head.len() {
                assert(encode_utf8(text)[i] == head[i]);
            } else {
                let k = i - head.len();
                assert(encode_utf8(text)[i] == encode_utf8(rest)[k]);
                assert(encode_utf8(rest).contains(encode_utf8(rest)[k]));
            }
        }
    }
}

spec fn bytes_views(v: Seq<Vec<u8>>) -> Seq<Seq<u8>> {
    v.map_values(|b: Vec<u8>| b@)
}

fn is_lone_dot(segment: &Vec<u8>) -> (r: bool)
    ensures
        r == (segment@ == seq![DOT]),
{
    let lone = segment.len() == 1 && segment[0] == DOT;
    assert(lone ==> segment@ =~= seq![DOT]);
    assert(seq![DOT][0] == DOT);
    lone
}

fn same_bytes(a: &Vec<u8>, b: &Vec<u8>) -> (r: bool)
    ensures
        r == (a@ == b@),
{
    if a.len() != b.len() {
        return false;
    }
    let mut i: usize = 0;
    while i < a.len()
        invariant
            i <= a@.len(),
            a@.len() == b@.len(),
            forall|k: int| 0 <= k < i ==> a@[k] == b@[k],
        decreases a@.len() - i,
    {
        if a[i] != b[i] {
            return false;
        }
        i = i + 1;
    }
    assert(a@ =~= b@);
    true
}

} // verus!
