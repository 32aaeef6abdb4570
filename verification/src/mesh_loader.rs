//! Reader of Wavefront OBJ text: it classifies each line, resolves the face
//! labels `position/texture/normal` against the attributes read so far, and
//! assembles the de-duplicated vertex list and triangle index buffer.
//!
//! Attribute values (`v`, `vn`, `vt`) are floating-point numbers; this module
//! only hands their words back to the caller, which parses and stores them.

use crate::text::{
    chars_of, integer_text, isize_text, isize_text_value, parse_isize, same_chars, split_at,
    split_at_char, split_words, string_of, words,
};
use vstd::prelude::*;

verus! {

#[verifier::external_type_specification]
#[verifier::external_body]
pub struct ExIoError(std::io::Error);

/// Why reading a mesh failed.
#[derive(Debug)]
pub enum MeshLoadError {
    /// The file could not be read.
    Io(std::io::Error),
    /// A face label that is not of the form `position/texture/normal`.
    InvalidFace(String),
    /// A face label, or a relative index, that names no attribute read so far.
    MissingIndex(String),
    /// A word that is not a number.
    InvalidNumber(String),
}

/// The abstract value of a [`MeshLoadError`]: its kind and text.
pub enum LoadFailure {
    Io,
    InvalidFace(Seq<char>),
    MissingIndex(Seq<char>),
    InvalidNumber(Seq<char>),
}

impl View for MeshLoadError {
    type V = LoadFailure;

    open spec fn view(&self) -> LoadFailure {
        match self {
            MeshLoadError::Io(_) => LoadFailure::Io,
            MeshLoadError::InvalidFace(s) => LoadFailure::InvalidFace(s@),
            MeshLoadError::MissingIndex(s) => LoadFailure::MissingIndex(s@),
            MeshLoadError::InvalidNumber(s) => LoadFailure::InvalidNumber(s@),
        }
    }
}

/// One assembled vertex: the indices of its position, texture coordinate and
/// normal among the attributes read so far.
#[derive(Clone, Copy, Debug, PartialEq, Eq, Structural)]
pub struct ObjVertex {
    pub position: usize,
    pub texture_coordinate: usize,
    pub normal: usize,
}

/// What a line of OBJ text declared.
pub enum ObjStatement {
    /// `v x y z`: the words after the keyword.
    Position(Vec<Vec<char>>),
    /// `vn x y z`: the words after the keyword.
    Normal(Vec<Vec<char>>),
    /// `vt u v`: the words after the keyword.
    TextureCoordinate(Vec<Vec<char>>),
    /// `f a b c ...`: its first three labels have been assembled.
    Face,
    /// Anything else, including a face of fewer than three labels.
    Other,
}

/// The abstract state of a [`MeshLoader`].
pub struct LoaderState {
    pub position_count: nat,
    pub normal_count: nat,
    pub texture_coordinate_count: nat,
    /// `labels[i]` is the face label that created `vertices[i]`.
    pub labels: Seq<Seq<char>>,
    pub vertices: Seq<ObjVertex>,
    pub indices: Seq<u32>,
}

/// Reads OBJ text line by line.
pub struct MeshLoader {
    position_count: usize,
    normal_count: usize,
    texture_coordinate_count: usize,
    labels: Vec<Vec<char>>,
    vertices: Vec<ObjVertex>,
    indices: Vec<u32>,
}

impl View for MeshLoader {
    type V = LoaderState;

    closed spec fn view(&self) -> LoaderState {
        LoaderState {
            position_count: self.position_count as nat,
            normal_count: self.normal_count as nat,
            texture_coordinate_count: self.texture_coordinate_count as nat,
            labels: char_views(self.labels@),
            vertices: self.vertices@,
            indices: self.indices@,
        }
    }
}

/// The character sequences held by a list of character vectors.
pub open spec fn char_views(vs: Seq<Vec<char>>) -> Seq<Seq<char>> {
    vs.map_values(|v: Vec<char>| v@)
}

/// The states a loader can be in: each label names exactly one vertex, every
/// index names a vertex, and every vertex names attributes that were read.
pub open spec fn well_formed(st: LoaderState) -> bool {
    &&& st.position_count <= isize::MAX
    &&& st.normal_count <= isize::MAX
    &&& st.texture_coordinate_count <= isize::MAX
    &&& st.labels.len() == st.vertices.len()
    &&& forall|i: int, j: int|
        0 <= i < j < st.labels.len() ==> #[trigger] st.labels[i] != #[trigger] st.labels[j]
    &&& forall|k: int| 0 <= k < st.indices.len() ==> (#[trigger] st.indices[k]) < st.vertices.len()
    &&& forall|v: int|
        0 <= v < st.vertices.len() ==> {
            &&& (#[trigger] st.vertices[v]).position < st.position_count
            &&& st.vertices[v].texture_coordinate < st.texture_coordinate_count
            &&& st.vertices[v].normal < st.normal_count
        }
}

/// The position of the last occurrence of `label` in `labels`.
pub open spec fn last_index_of(labels: Seq<Seq<char>>, label: Seq<char>) -> Option<nat>
    decreases labels.len(),
{
    if labels.len() == 0 {
        None
    } else if labels.last() == label {
        Some((labels.len() - 1) as nat)
    } else {
        last_index_of(labels.drop_last(), label)
    }
}

/// A face index written as `value` among `len` attributes: counted from 1, or
/// from the end when negative.
pub open spec fn resolve_index(value: Seq<char>, len: nat) -> Result<nat, LoadFailure> {
    match isize_text_value(value) {
        None => Err(LoadFailure::InvalidNumber(value)),
        Some(v) => {
            let index = if v < 0 { len + v } else { v - 1 };
            if index < 0 {
                Err(LoadFailure::MissingIndex(integer_text(v)))
            } else {
                Ok(index as nat)
            }
        },
    }
}

/// The attribute that `value` names among `count` of them, within `label`.
pub open spec fn attribute_index(value: Seq<char>, count: nat, label: Seq<char>) -> Result<
    nat,
    LoadFailure,
> {
    match resolve_index(value, count) {
        Err(e) => Err(e),
        Ok(i) => if i < count { Ok(i) } else { Err(LoadFailure::MissingIndex(label)) },
    }
}

/// The state after one face label: a label seen before repeats its vertex;
/// a new label creates the vertex of the attributes it names.
pub open spec fn add_label(st: LoaderState, label: Seq<char>) -> Result<LoaderState, LoadFailure> {
    match last_index_of(st.labels, label) {
        Some(i) => Ok(LoaderState { indices: st.indices.push(i as u32), ..st }),
        None => {
            let parts = split_at(label, '/');
            if parts.len() != 3 {
                Err(LoadFailure::InvalidFace(label))
            } else {
                match attribute_index(parts[0], st.position_count, label) {
                    Err(e) => Err(e),
                    Ok(p) => match attribute_index(parts[1], st.texture_coordinate_count, label) {
                        Err(e) => Err(e),
                        Ok(t) => match attribute_index(parts[2], st.normal_count, label) {
                            Err(e) => Err(e),
                            Ok(n) => Ok(
                                LoaderState {
                                    labels: st.labels.push(label),
                                    vertices: st.vertices.push(
                                        ObjVertex {
                                            position: p as usize,
                                            texture_coordinate: t as usize,
                                            normal: n as usize,
                                        },
                                    ),
                                    indices: st.indices.push(st.vertices.len() as u32),
                                    ..st
                                },
                            ),
                        },
                    },
                }
            }
        },
    }
}

/// The state after the labels of a face, taken in order.
pub open spec fn add_labels(st: LoaderState, labels: Seq<Seq<char>>) -> Result<
    LoaderState,
    LoadFailure,
>
    decreases labels.len(),
{
    if labels.len() == 0 {
        Ok(st)
    } else {
        match add_labels(st, labels.drop_last()) {
            Err(e) => Err(e),
            Ok(mid) => add_label(mid, labels.last()),
        }
    }
}

/// How a line changes the state: the keyword decides, a face assembles its
/// first three labels and ignores the rest, and a face of fewer than three
/// labels changes nothing.
pub open spec fn read_line_spec(st: LoaderState, line: Seq<char>) -> Result<LoaderState, LoadFailure> {
    let ws = words(line);
    if ws.len() == 0 {
        Ok(st)
    } else if ws[0] == seq!['v'] {
        Ok(LoaderState { position_count: st.position_count + 1, ..st })
    } else if ws[0] == seq!['v', 'n'] {
        Ok(LoaderState { normal_count: st.normal_count + 1, ..st })
    } else if ws[0] == seq!['v', 't'] {
        Ok(LoaderState { texture_coordinate_count: st.texture_coordinate_count + 1, ..st })
    } else if ws[0] == seq!['f'] && ws.len() >= 4 {
        add_labels(st, ws.subrange(1, 4))
    } else {
        Ok(st)
    }
}

/// The statement kind that a successful `read_line` reports for `line`.
pub open spec fn statement_matches(line: Seq<char>, statement: ObjStatement) -> bool {
    let ws = words(line);
    match statement {
        ObjStatement::Position(rest) => ws.len() > 0 && ws[0] == seq!['v'] && char_views(rest@) == ws.skip(1),
        ObjStatement::Normal(rest) => ws.len() > 0 && ws[0] == seq!['v', 'n'] && char_views(rest@) == ws.skip(1),
        ObjStatement::TextureCoordinate(rest) => ws.len() > 0 && ws[0] == seq!['v', 't']
            && char_views(rest@) == ws.skip(1),
        ObjStatement::Face => ws.len() > 0 && ws[0] == seq!['f'],
        ObjStatement::Other => ws.len() == 0 || (ws[0] != seq!['v'] && ws[0] != seq!['v', 'n']
            && ws[0] != seq!['v', 't'] && ws[0] != seq!['f']),
    }
}


proof fn lemma_last_index_of(labels: Seq<Seq<char>>, label: Seq<char>)
    ensures
        last_index_of(labels, label) matches Some(i) ==> i < labels.len() && labels[i as int] == label,
        last_index_of(labels, label) is None ==> forall|i: int|
            0 <= i < labels.len() ==> #[trigger] labels[i] != label,
    decreases labels.len(),
{
    if labels.len() > 0 {
        lemma_last_index_of(labels.drop_last(), label);
        if labels.last() != label {
            assert forall|i: int| 0 <= i < labels.len() - 1 implies #[trigger] labels[i] == labels.drop_last()[i] by {}
        }
    }
}

/// A face label keeps the loader well formed.
pub proof fn lemma_add_label_well_formed(st: LoaderState, label: Seq<char>)
    requires
        well_formed(st),
    ensures
        add_label(st, label) matches Ok(next) ==> well_formed(next),
{
    lemma_last_index_of(st.labels, label);
    match add_label(st, label) {
        Ok(next) => {
            if last_index_of(st.labels, label) is None {
                assert(st.vertices.len() < next.vertices.len());
                assert forall|i: int, j: int|
                    0 <= i < j < next.labels.len() implies #[trigger] next.labels[i]
                    != #[trigger] next.labels[j] by {
                    if j == st.labels.len() {
                        assert(next.labels[i] == st.labels[i]);
                    } else {
                        assert(next.labels[i] == st.labels[i]);
                        assert(next.labels[j] == st.labels[j]);
                    }
                }
                assert forall|k: int| 0 <= k < next.indices.len() implies (#[trigger] next.indices[k])
                    < next.vertices.len() by {
                    if k < st.indices.len() {
                        assert(next.indices[k] == st.indices[k]);
                    } else {
                        assert(next.indices[k] == (st.vertices.len() as u32));
                    }
                }
                assert forall|v: int| 0 <= v < next.vertices.len() implies {
                    &&& (#[trigger] next.vertices[v]).position < next.position_count
                    &&& next.vertices[v].texture_coordinate < next.texture_coordinate_count
                    &&& next.vertices[v].normal < next.normal_count
                } by {
                    if v < st.vertices.len() {
                        assert(next.vertices[v] == st.vertices[v]);
                    }
                }
            } else {
                assert forall|k: int| 0 <= k < next.indices.len() implies (#[trigger] next.indices[k])
                    < next.vertices.len() by {
                    if k < st.indices.len() {
                        assert(next.indices[k] == st.indices[k]);
                    }
                }
            }
        },
        Err(_) => {},
    }
}

/// The labels of a face, taken in order, keep the loader well formed.
pub proof fn lemma_add_labels_well_formed(st: LoaderState, labels: Seq<Seq<char>>)
    requires
        well_formed(st),
    ensures
        add_labels(st, labels) matches Ok(next) ==> well_formed(next),
    decreases labels.len(),
{
    if labels.len() > 0 {
        lemma_add_labels_well_formed(st, labels.drop_last());
        if let Ok(mid) = add_labels(st, labels.drop_last()) {
            lemma_add_label_well_formed(mid, labels.last());
        }
    }
}

/// Every line keeps the loader well formed.
pub proof fn lemma_read_line_well_formed(st: LoaderState, line: Seq<char>)
    requires
        well_formed(st),
        st.position_count < isize::MAX,
        st.normal_count < isize::MAX,
        st.texture_coordinate_count < isize::MAX,
    ensures
        read_line_spec(st, line) matches Ok(next) ==> well_formed(next),
{
    let ws = words(line);
    if ws.len() > 0 && ws[0] == seq!['f'] && ws.len() >= 4 {
        lemma_add_labels_well_formed(st, ws.subrange(1, 4));
    }
}

proof fn lemma_add_label_shape(st: LoaderState, label: Seq<char>)
    ensures
        add_label(st, label) matches Ok(next) ==> {
            &&& next.indices.len() == st.indices.len() + 1
            &&& next.indices.subrange(0, st.indices.len() as int) == st.indices
            &&& next.position_count == st.position_count
            &&& next.normal_count == st.normal_count
            &&& next.texture_coordinate_count == st.texture_coordinate_count
            &&& (next.labels == st.labels || next.labels == st.labels.push(label))
            &&& last_index_of(next.labels, label) is Some
        },
        (last_index_of(st.labels, label) is Some) ==> (add_label(st, label) matches Ok(next)
            && next.labels == st.labels && next.vertices == st.vertices),
{
    if let Ok(next) = add_label(st, label) {
        assert(next.indices.subrange(0, st.indices.len() as int) =~= st.indices);
    }
}

proof fn lemma_present_after_push(labels: Seq<Seq<char>>, extra: Seq<char>, label: Seq<char>)
    requires
        last_index_of(labels, label) is Some,
    ensures
        last_index_of(labels.push(extra), label) is Some,
{
    if extra != label {
        assert(labels.push(extra).drop_last() == labels);
    }
}

proof fn lemma_add_labels_shape(st: LoaderState, labels: Seq<Seq<char>>)
    ensures
        add_labels(st, labels) matches Ok(next) ==> {
            &&& next.indices.len() == st.indices.len() + labels.len()
            &&& next.indices.subrange(0, st.indices.len() as int) == st.indices
            &&& next.position_count == st.position_count
            &&& next.normal_count == st.normal_count
            &&& next.texture_coordinate_count == st.texture_coordinate_count
            &&& forall|i: int| 0 <= i < labels.len() ==> last_index_of(next.labels, #[trigger] labels[i]) is Some
            &&& forall|l: Seq<char>| last_index_of(st.labels, l) is Some ==> #[trigger] last_index_of(next.labels, l) is Some
        },
    decreases labels.len(),
{
    if labels.len() > 0 {
        let init = labels.drop_last();
        lemma_add_labels_shape(st, init);
        if let Ok(mid) = add_labels(st, init) {
            lemma_add_label_shape(mid, labels.last());
            if let Ok(next) = add_label(mid, labels.last()) {
                assert(next.indices.subrange(0, st.indices.len() as int) =~= mid.indices.subrange(
                    0,
                    st.indices.len() as int,
                ));
                assert forall|l: Seq<char>| last_index_of(mid.labels, l) is Some implies #[trigger] last_index_of(
                    next.labels,
                    l,
                ) is Some by {
                    if next.labels != mid.labels {
                        lemma_present_after_push(mid.labels, labels.last(), l);
                    }
                }
                assert forall|i: int| 0 <= i < labels.len() implies last_index_of(
                    next.labels,
                    #[trigger] labels[i],
                ) is Some by {
                    if i < labels.len() - 1 {
                        assert(labels[i] == init[i]);
                    }
                }
            }
        }
    }
}

proof fn lemma_add_present_labels(st: LoaderState, labels: Seq<Seq<char>>)
    requires
        forall|i: int| 0 <= i < labels.len() ==> last_index_of(st.labels, #[trigger] labels[i]) is Some,
    ensures
        add_labels(st, labels) matches Ok(next) && next.labels == st.labels && next.vertices
            == st.vertices,
    decreases labels.len(),
{
    if labels.len() > 0 {
        let init = labels.drop_last();
        assert forall|i: int| 0 <= i < init.len() implies last_index_of(st.labels, #[trigger] init[i]) is Some by {
            assert(init[i] == labels[i]);
        }
        lemma_add_present_labels(st, init);
        let mid = add_labels(st, init)->Ok_0;
        assert(last_index_of(st.labels, labels[labels.len() - 1]) is Some);
        lemma_add_label_shape(mid, labels.last());
    }
}

/// A face with three or more labels keeps the indices it found and appends
/// exactly three more, whatever its other labels; it reads no attribute.
pub proof fn lemma_face_appends_three_indices(st: LoaderState, line: Seq<char>)
    requires
        words(line).len() >= 4,
        words(line)[0] == seq!['f'],
    ensures
        read_line_spec(st, line) matches Ok(next) ==> {
            &&& next.indices.len() == st.indices.len() + 3
            &&& next.indices.subrange(0, st.indices.len() as int) == st.indices
            &&& next.position_count == st.position_count
            &&& next.normal_count == st.normal_count
            &&& next.texture_coordinate_count == st.texture_coordinate_count
        },
{
    assert(seq!['f'][0] != seq!['v'][0]);
    assert(seq!['f'].len() != seq!['v', 'n'].len());
    assert(seq!['f'].len() != seq!['v', 't'].len());
    lemma_add_labels_shape(st, words(line).subrange(1, 4));
}

/// Reading a face line a second time adds no vertex: every label it uses
/// names the vertex it created the first time.
pub proof fn lemma_face_read_twice_adds_no_vertex(st: LoaderState, line: Seq<char>)
    requires
        words(line).len() >= 4,
        words(line)[0] == seq!['f'],
        read_line_spec(st, line) is Ok,
    ensures
        read_line_spec(read_line_spec(st, line)->Ok_0, line) matches Ok(again) && again.vertices
            == read_line_spec(st, line)->Ok_0.vertices && again.labels == read_line_spec(
            st,
            line,
        )->Ok_0.labels,
{
    assert(seq!['f'][0] != seq!['v'][0]);
    assert(seq!['f'].len() != seq!['v', 'n'].len());
    assert(seq!['f'].len() != seq!['v', 't'].len());
    let face = words(line).subrange(1, 4);
    lemma_add_labels_shape(st, face);
    let once = read_line_spec(st, line)->Ok_0;
    lemma_add_present_labels(once, face);
}

/// A face `f l1 l2 l3 ...` assembles exactly its first three labels, `l1`,
/// then `l2`, then `l3`, one at a time; the labels after the third change
/// nothing, so a line and the same line cut after its third label lead to the
/// same state or the same error.
pub proof fn lemma_face_uses_first_three_labels(st: LoaderState, line: Seq<char>, cut: Seq<char>)
    requires
        words(line).len() >= 4,
        words(line)[0] == seq!['f'],
        words(cut) == words(line).take(4),
    ensures
        read_line_spec(st, line) == (match add_label(st, words(line)[1]) {
            Err(e) => Err(e),
            Ok(first) => match add_label(first, words(line)[2]) {
                Err(e) => Err(e),
                Ok(second) => add_label(second, words(line)[3]),
            },
        }),
        read_line_spec(st, cut) == read_line_spec(st, line),
{
    assert(seq!['f'][0] != seq!['v'][0]);
    assert(seq!['f'].len() != seq!['v', 'n'].len());
    assert(seq!['f'].len() != seq!['v', 't'].len());
    let ws = words(line);
    let face = ws.subrange(1, 4);
    assert(face.drop_last() == ws.subrange(1, 3));
    assert(face.drop_last().drop_last() == ws.subrange(1, 2));
    assert(face.drop_last().drop_last().drop_last() == Seq::<Seq<char>>::empty());
    assert(face.last() == ws[3]);
    assert(face.drop_last().last() == ws[2]);
    assert(face.drop_last().drop_last().last() == ws[1]);
    assert(words(cut).subrange(1, 4) == face);
    assert(words(cut)[0] == ws[0]);
    reveal_with_fuel(add_labels, 4);
}

impl MeshLoader {
    /// A loader that has read nothing.
    pub fn new() -> (loader: Self)
        ensures
            loader@ == (LoaderState {
                position_count: 0,
                normal_count: 0,
                texture_coordinate_count: 0,
                labels: seq![],
                vertices: seq![],
                indices: seq![],
            }),
            well_formed(loader@),
    {
        let loader = MeshLoader {
            position_count: 0,
            normal_count: 0,
            texture_coordinate_count: 0,
            labels: Vec::new(),
            vertices: Vec::new(),
            indices: Vec::new(),
        };
        assert(loader@.labels =~= seq![]);
        loader
    }

    /// The lines of `source`: the pieces between its `'\n'` characters.
    pub fn split_lines(source: &str) -> (lines: Vec<Vec<char>>)
        ensures
            lines@.len() == split_at(source@, '\n').len(),
            forall|i: int| 0 <= i < lines@.len() ==> (#[trigger] lines@[i])@ == split_at(source@, '\n')[i],
    {
        let chars = chars_of(source);
        split_at_char(&chars, '\n')
    }

    fn index_of_chars(value: &Vec<char>, len: usize) -> (r: Result<usize, MeshLoadError>)
        requires
            len <= isize::MAX,
        ensures
            match resolve_index(value@, len as nat) {
                Ok(i) => r matches Ok(x) && x == i,
                Err(e) => r matches Err(x) && x@ == e,
            },
    {
        match parse_isize(value) {
            None => Err(MeshLoadError::InvalidNumber(string_of(value))),
            Some(v) => {
                let index: isize = if v < 0 { len as isize + v } else { v - 1 };
                if index < 0 {
                    Err(MeshLoadError::MissingIndex(string_of(&isize_text(v))))
                } else {
                    Ok(index as usize)
                }
            },
        }
    }

    /// The position among `len` attributes that the face index `value` names:
    /// `value - 1` for a positive index, `len + value` for a negative one.
    pub fn index(value: &str, len: usize) -> (r: Result<usize, MeshLoadError>)
        requires
            len <= isize::MAX,
        ensures
            match resolve_index(value@, len as nat) {
                Ok(i) => r matches Ok(x) && x == i,
                Err(e) => r matches Err(x) && x@ == e,
            },
    {
        let chars = chars_of(value);
        Self::index_of_chars(&chars, len)
    }

    fn attribute(value: &Vec<char>, count: usize, label: &Vec<char>) -> (r: Result<usize, MeshLoadError>)
        requires
            count <= isize::MAX,
        ensures
            match attribute_index(value@, count as nat, label@) {
                Ok(i) => r matches Ok(x) && x == i,
                Err(e) => r matches Err(x) && x@ == e,
            },
    {
        let index = Self::index_of_chars(value, count)?;
        if index < count {
            Ok(index)
        } else {
            Err(MeshLoadError::MissingIndex(string_of(label)))
        }
    }

    fn find_label(&self, label: &Vec<char>) -> (r: Option<usize>)
        ensures
            r matches Some(i) ==> last_index_of(self@.labels, label@) == Some(i as nat),
            r is None ==> last_index_of(self@.labels, label@) is None,
    {
        let mut k = self.labels.len();
        let ghost all = self@.labels;
        assert(all.take(k as int) == all);
        while k > 0
            invariant
                k <= self.labels.len(),
                all == self@.labels,
                last_index_of(all, label@) == last_index_of(all.take(k as int), label@),
            decreases k,
        {
            let ghost pre = all.take(k as int);
            assert(pre.last() == self.labels@[k - 1]@);
            if same_chars(&self.labels[k - 1], label) {
                return Some(k - 1);
            }
            assert(pre.drop_last() == all.take(k - 1));
            k -= 1;
        }
        assert(all.take(0) =~= Seq::<Seq<char>>::empty());
        None
    }

    fn add_label_exec(&mut self, label: &Vec<char>) -> (r: Result<(), MeshLoadError>)
        requires
            well_formed(old(self)@),
        ensures
            match add_label(old(self)@, label@) {
                Ok(st) => r is Ok && final(self)@ == st,
                Err(e) => r matches Err(x) && x@ == e,
            },
    {
        proof {
            lemma_last_index_of(self@.labels, label@);
        }
        if let Some(i) = self.find_label(label) {
            self.indices.push(#[verifier::truncate] (i as u32));
            proof {
                assert(self@.labels == old(self)@.labels);
                assert(self@.indices == old(self)@.indices.push(#[verifier::truncate] (i as u32)));
                assert(self@ == LoaderState { indices: old(self)@.indices.push(i as u32), ..old(self)@ });
                assert(last_index_of(old(self)@.labels, label@) == Some(i as nat));
                assert(add_label(old(self)@, label@) == Ok::<LoaderState, LoadFailure>(self@));
            }
            return Ok(());
        }
        let parts = split_at_char(label, '/');
        if parts.len() != 3 {
            return Err(MeshLoadError::InvalidFace(string_of(label)));
        }
        let position = Self::attribute(&parts[0], self.position_count, label)?;
        let texture_coordinate = Self::attribute(&parts[1], self.texture_coordinate_count, label)?;
        let normal = Self::attribute(&parts[2], self.normal_count, label)?;
        let ghost old_labels = self.labels@;
        let new_index = #[verifier::truncate] (self.vertices.len() as u32);
        self.vertices.push(ObjVertex { position, texture_coordinate, normal });
        self.labels.push(label.clone());
        self.indices.push(new_index);
        proof {
            assert(self@.labels =~= old(self)@.labels.push(label@));
        }
        Ok(())
    }

    fn add_face(&mut self, ws: &Vec<Vec<char>>) -> (r: Result<(), MeshLoadError>)
        requires
            well_formed(old(self)@),
            ws@.len() >= 4,
        ensures
            match add_labels(old(self)@, char_views(ws@).subrange(1, 4)) {
                Ok(st) => r is Ok && final(self)@ == st,
                Err(e) => r matches Err(x) && x@ == e,
            },
    {
        let ghost labels = char_views(ws@).subrange(1, 4);
        let ghost st0 = self@;
        assert(labels.take(0) =~= Seq::<Seq<char>>::empty());
        let mut k: usize = 1;
        while k < 4
            invariant
                1 <= k <= 4,
                ws@.len() >= 4,
                st0 == old(self)@,
                labels == char_views(ws@).subrange(1, 4),
                add_labels(st0, labels.take(k - 1)) == Ok::<LoaderState, LoadFailure>(self@),
                well_formed(self@),
            decreases 4 - k,
        {
            let ghost before = self@;
            assert(labels.take(k as int).drop_last() == labels.take(k - 1));
            assert(labels.take(k as int).last() == ws@[k as int]@);
            proof {
                lemma_add_label_well_formed(before, ws@[k as int]@);
            }
            match self.add_label_exec(&ws[k]) {
                Ok(()) => {},
                Err(e) => {
                    proof {
                        assert(add_labels(st0, labels.take(k as int)) == add_label(before, ws@[k as int]@));
                        assert(labels.take(3) == labels);
                        lemma_add_labels_err(st0, labels, k as int, 3);
                        assert(add_labels(st0, labels) == add_label(before, ws@[k as int]@));
                        assert(add_labels(st0, labels) == Err::<LoaderState, LoadFailure>(e@));
                    }
                    return Err(e);
                },
            }
            k += 1;
        }
        assert(labels.take(3) == labels);
        Ok(())
    }
}

fn word_is_1(w: &Vec<char>, a: char) -> (r: bool)
    ensures
        r == (w@ == seq![a]),
{
    let r = w.len() == 1 && w[0] == a;
    proof {
        if w@.len() == 1 && w@[0] == a {
            assert(w@ =~= seq![a]);
        }
    }
    r
}

fn word_is_2(w: &Vec<char>, a: char, b: char) -> (r: bool)
    ensures
        r == (w@ == seq![a, b]),
{
    let r = w.len() == 2 && w[0] == a && w[1] == b;
    proof {
        if w@.len() == 2 && w@[0] == a && w@[1] == b {
            assert(w@ =~= seq![a, b]);
        }
    }
    r
}

impl MeshLoader {
    /// Reads one line of OBJ text (see [`read_line_spec`]).  For an attribute
    /// line it returns the words after the keyword, for the caller to parse.
    pub fn read_line(&mut self, line: &Vec<char>) -> (r: Result<ObjStatement, MeshLoadError>)
        requires
            well_formed(old(self)@),
            old(self)@.position_count < isize::MAX,
            old(self)@.normal_count < isize::MAX,
            old(self)@.texture_coordinate_count < isize::MAX,
        ensures
            match read_line_spec(old(self)@, line@) {
                Ok(st) => r matches Ok(statement) && final(self)@ == st && statement_matches(
                    line@,
                    statement,
                ),
                Err(e) => r matches Err(x) && x@ == e,
            },
            r is Ok ==> well_formed(final(self)@),
    {
        proof {
            lemma_read_line_well_formed(self@, line@);
        }
        let mut ws = split_words(line);
        let ghost all = words(line@);
        assert(char_views(ws@) =~= all);
        if ws.len() == 0 {
            return Ok(ObjStatement::Other);
        }
        if word_is_1(&ws[0], 'f') {
            proof {
                assert(seq!['f'][0] != seq!['v'][0]);
                assert(seq!['f'].len() != seq!['v', 'n'].len());
                assert(seq!['f'].len() != seq!['v', 't'].len());
            }
            if ws.len() >= 4 {
                assert(char_views(ws@).subrange(1, 4) == all.subrange(1, 4));
                match self.add_face(&ws) {
                    Ok(()) => {},
                    Err(e) => {
                        return Err(e);
                    },
                }
            }
            return Ok(ObjStatement::Face);
        }
        let is_position = word_is_1(&ws[0], 'v');
        let is_normal = word_is_2(&ws[0], 'v', 'n');
        let is_texture_coordinate = word_is_2(&ws[0], 'v', 't');
        let ghost before = ws@;
        let _keyword = ws.remove(0);
        assert(char_views(ws@) =~= all.skip(1));
        if is_position {
            self.position_count = self.position_count + 1;
            Ok(ObjStatement::Position(ws))
        } else if is_normal {
            self.normal_count = self.normal_count + 1;
            Ok(ObjStatement::Normal(ws))
        } else if is_texture_coordinate {
            self.texture_coordinate_count = self.texture_coordinate_count + 1;
            Ok(ObjStatement::TextureCoordinate(ws))
        } else {
            Ok(ObjStatement::Other)
        }
    }

    /// The vertices assembled so far.
    pub fn vertices(&self) -> (r: &Vec<ObjVertex>)
        ensures
            r@ == self@.vertices,
    {
        &self.vertices
    }

    /// The triangle index buffer assembled so far.
    pub fn indices(&self) -> (r: &Vec<u32>)
        ensures
            r@ == self@.indices,
    {
        &self.indices
    }

    /// How many `v`, `vn` and `vt` lines have been read.
    pub fn attribute_counts(&self) -> (r: (usize, usize, usize))
        ensures
            r.0 == self@.position_count,
            r.1 == self@.normal_count,
            r.2 == self@.texture_coordinate_count,
    {
        (self.position_count, self.normal_count, self.texture_coordinate_count)
    }
}

proof fn lemma_add_labels_err(st: LoaderState, labels: Seq<Seq<char>>, k: int, j: int)
    requires
        1 <= k <= j <= labels.len(),
        add_labels(st, labels.take(k)) is Err,
    ensures
        add_labels(st, labels.take(j)) == add_labels(st, labels.take(k)),
    decreases j - k,
{
    if j > k {
        lemma_add_labels_err(st, labels, k, j - 1);
        assert(labels.take(j).drop_last() == labels.take(j - 1));
    }
}

} // verus!
