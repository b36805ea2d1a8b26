//! The OBJ mesh reader: turns the bytes of a Wavefront OBJ file into a
//! [`Mesh`].
//!
//! The file layer hands the raw bytes in; everything textual happens
//! here. Coordinates are read as fixed-point decimals in thousandths of a
//! unit, rounded toward zero, so `1.25` becomes `1250`. A number that
//! does not fit the grammar (sign, digits, optional fraction) or is too
//! large to represent counts as unreadable and defaults — to zero for a
//! coordinate, to the first vertex for an index — and out-of-range
//! vertex references fall back to the origin and the upward normal, so a
//! malformed file never fails, it only loses data, as a lenient reader
//! should.

use vstd::prelude::*;
use crate::model::{Face, Mesh, Vertex};
use crate::vec3::Vec3;

verus! {

/// Whitespace inside a line: space, tab, carriage return.
pub open spec fn is_ws(b: u8) -> bool {
    b == 32 || b == 9 || b == 13
}

pub open spec fn is_digit(b: u8) -> bool {
    48 <= b <= 57
}

pub open spec fn all_digits(s: Seq<u8>) -> bool {
    forall|i: int| 0 <= i < s.len() ==> is_digit(#[trigger] s[i])
}

/// The value of a digit string, most significant first.
pub open spec fn digits_val(s: Seq<u8>) -> int
    decreases s.len(),
{
    if s.len() == 0 {
        0
    } else {
        digits_val(s.drop_last()) * 10 + (s.last() - 48)
    }
}

/// Longer digit prefixes never shrink the value.
pub proof fn lemma_digits_val_monotone(s: Seq<u8>, k: int)
    requires
        all_digits(s),
        0 <= k <= s.len(),
    ensures
        digits_val(s.take(k)) <= digits_val(s),
    decreases s.len() - k,
{
    if k < s.len() {
        lemma_digits_val_monotone(s, k + 1);
        assert(s.take(k + 1).drop_last() =~= s.take(k));
        assert(is_digit(s.take(k + 1).last()));
        assert(digits_val(s.take(k)) >= 0) by {
            lemma_digits_val_nonneg(s.take(k));
        }
    } else {
        assert(s.take(k) =~= s);
    }
}

/// A digit string's value is never negative.
pub proof fn lemma_digits_val_nonneg(s: Seq<u8>)
    requires
        all_digits(s),
    ensures
        digits_val(s) >= 0,
    decreases s.len(),
{
    if s.len() > 0 {
        assert(all_digits(s.drop_last())) by {
            assert(forall|i: int|
                0 <= i < s.drop_last().len() ==> s.drop_last()[i] == #[trigger] s[i]);
        }
        lemma_digits_val_nonneg(s.drop_last());
    }
}

/// The split of a byte string at every separator, keeping empty pieces:
/// what remains of `rest` when `cur` has already been read since the last
/// separator.
pub open spec fn split_acc(rest: Seq<u8>, cur: Seq<u8>, sep: u8) -> Seq<Seq<u8>>
    decreases rest.len(),
{
    if rest.len() == 0 {
        seq![cur]
    } else if rest.first() == sep {
        seq![cur] + split_acc(rest.drop_first(), Seq::empty(), sep)
    } else {
        split_acc(rest.drop_first(), cur.push(rest.first()), sep)
    }
}

/// The pieces of a byte string between separators; empty pieces kept.
pub open spec fn split_keep(s: Seq<u8>, sep: u8) -> Seq<Seq<u8>> {
    split_acc(s, Seq::empty(), sep)
}

/// The lines of a file: pieces between newlines, with no piece for a
/// trailing newline and none at all for an empty file.
pub open spec fn lines_acc(rest: Seq<u8>, cur: Seq<u8>) -> Seq<Seq<u8>>
    decreases rest.len(),
{
    if rest.len() == 0 {
        if cur.len() == 0 {
            Seq::empty()
        } else {
            seq![cur]
        }
    } else if rest.first() == 10 {
        seq![cur] + lines_acc(rest.drop_first(), Seq::empty())
    } else {
        lines_acc(rest.drop_first(), cur.push(rest.first()))
    }
}

pub open spec fn lines_of(s: Seq<u8>) -> Seq<Seq<u8>> {
    lines_acc(s, Seq::empty())
}

/// The whitespace-separated words of a line.
pub open spec fn tokens_acc(rest: Seq<u8>, cur: Seq<u8>) -> Seq<Seq<u8>>
    decreases rest.len(),
{
    if rest.len() == 0 {
        if cur.len() == 0 {
            Seq::empty()
        } else {
            seq![cur]
        }
    } else if is_ws(rest.first()) {
        if cur.len() == 0 {
            tokens_acc(rest.drop_first(), Seq::empty())
        } else {
            seq![cur] + tokens_acc(rest.drop_first(), Seq::empty())
        }
    } else {
        tokens_acc(rest.drop_first(), cur.push(rest.first()))
    }
}

pub open spec fn tokens_of(s: Seq<u8>) -> Seq<Seq<u8>> {
    tokens_acc(s, Seq::empty())
}

/// The largest digit-string value the readers accept.
pub open spec fn index_cap() -> int {
    0xFFFF_FFFF
}

/// The largest whole-unit part a coordinate may carry.
pub open spec fn coord_cap() -> int {
    2_000_000
}

/// A one-based vertex reference, made zero-based. Anything unreadable —
/// no digits, a stray character, zero, or a value past the cap — falls
/// back to reference one, hence slot zero.
pub open spec fn index_of_token(s: Seq<u8>) -> int {
    if s.len() > 0 && all_digits(s) && 1 <= digits_val(s) <= index_cap() {
        digits_val(s) - 1
    } else {
        0
    }
}

/// The first three fraction digits, zero-padded.
pub open spec fn frac3(s: Seq<u8>) -> int {
    digits_val((s + seq![48u8, 48u8, 48u8]).take(3))
}

/// A fixed-point coordinate in thousandths: optional sign, whole digits,
/// optional point and fraction digits (truncated past the third).
/// Unreadable or oversized numbers read as zero.
pub open spec fn fixed_of_token(s: Seq<u8>) -> i32 {
    let neg = s.len() > 0 && s[0] == 45;
    let t = if s.len() > 0 && (s[0] == 45 || s[0] == 43) {
        s.drop_first()
    } else {
        s
    };
    let segs = split_keep(t, 46);
    let ok = if segs.len() == 1 {
        segs[0].len() > 0 && all_digits(segs[0]) && digits_val(segs[0]) <= coord_cap()
    } else if segs.len() == 2 {
        segs[0].len() > 0 && all_digits(segs[0]) && digits_val(segs[0]) <= coord_cap()
            && all_digits(segs[1])
    } else {
        false
    };
    if ok {
        let frac = if segs.len() == 2 {
            frac3(segs[1])
        } else {
            0
        };
        let magnitude = digits_val(segs[0]) * 1000 + frac;
        if neg {
            (-magnitude) as i32
        } else {
            magnitude as i32
        }
    } else {
        0
    }
}

/// What the reader knows mid-file: the vertex positions and normals seen
/// so far, and the face vertex lists already assembled.
pub struct ObjState {
    pub positions: Seq<Vec3>,
    pub normals: Seq<Vec3>,
    pub faces: Seq<Seq<Vertex>>,
}

/// One face-corner reference resolved against the current state:
/// `pos`, `pos/uv`, or `pos/uv/normal`, one-based; a missing or
/// out-of-range position falls back to the origin, a missing or
/// out-of-range normal to the upward axis.
pub open spec fn vertex_of_token(st: ObjState, tok: Seq<u8>) -> Vertex {
    let segs = split_keep(tok, 47);
    let pi = index_of_token(segs[0]);
    let position = if pi < st.positions.len() {
        st.positions[pi]
    } else {
        Vec3 { x: 0i32, y: 0i32, z: 0i32 }
    };
    let normal = if segs.len() >= 3 && segs[2].len() > 0 {
        let ni = index_of_token(segs[2]);
        if ni < st.normals.len() {
            st.normals[ni]
        } else {
            Vec3 { x: 0i32, y: 1000i32, z: 0i32 }
        }
    } else {
        Vec3 { x: 0i32, y: 1000i32, z: 0i32 }
    };
    Vertex { position, normal }
}

/// How one line changes the reader's state: `v` and `vn` lines with at
/// least three numbers append a position or normal, `f` lines with at
/// least one corner append a face, and everything else — blank lines,
/// comments, unknown keywords — changes nothing.
pub open spec fn line_step(st: ObjState, line: Seq<u8>) -> ObjState {
    let toks = tokens_of(line);
    if toks.len() == 0 {
        st
    } else if toks[0] == seq![118u8] && toks.len() >= 4 {
        ObjState {
            positions: st.positions.push(
                Vec3 {
                    x: fixed_of_token(toks[1]),
                    y: fixed_of_token(toks[2]),
                    z: fixed_of_token(toks[3]),
                },
            ),
            ..st
        }
    } else if toks[0] == seq![118u8, 110u8] && toks.len() >= 4 {
        ObjState {
            normals: st.normals.push(
                Vec3 {
                    x: fixed_of_token(toks[1]),
                    y: fixed_of_token(toks[2]),
                    z: fixed_of_token(toks[3]),
                },
            ),
            ..st
        }
    } else if toks[0] == seq![102u8] && toks.len() >= 2 {
        ObjState {
            faces: st.faces.push(
                Seq::new((toks.len() - 1) as nat, |i: int| vertex_of_token(st, toks[i + 1])),
            ),
            ..st
        }
    } else {
        st
    }
}

pub open spec fn empty_state() -> ObjState {
    ObjState { positions: Seq::empty(), normals: Seq::empty(), faces: Seq::empty() }
}

/// The reader's state after a list of lines.
pub open spec fn obj_fold(lines: Seq<Seq<u8>>) -> ObjState
    decreases lines.len(),
{
    if lines.len() == 0 {
        empty_state()
    } else {
        line_step(obj_fold(lines.drop_last()), lines.last())
    }
}

/// Reads a whole OBJ file into a mesh with the identity transform. The
/// mesh's faces are the file's `f` records in order, each corner resolved
/// as [`vertex_of_token`] says; every face wears the default face
/// material until the scene assigns one.
pub fn parse_obj_into_mesh(data: &Vec<u8>) -> (m: Mesh)
    ensures
        m.position == (Vec3 { x: 0i32, y: 0i32, z: 0i32 }),
        m.scale == 1i32,
        m.faces@.len() == obj_fold(lines_of(data@)).faces.len(),
        forall|i: int|
            0 <= i < m.faces@.len() ==> (#[trigger] m.faces@[i]).vertices@ == obj_fold(
                lines_of(data@),
            ).faces[i] && m.faces@[i].material == Face::new_material(),
{
    let lines = split_lines(data);
    let ghost all_lines = lines_of(data@);

    let mut positions: Vec<Vec3> = Vec::new();
    let mut normals: Vec<Vec3> = Vec::new();
    let mut mesh = Mesh::new();

    let mut k: usize = 0;
    proof {
        assert(all_lines.take(0) =~= Seq::<Seq<u8>>::empty());
    }
    while k < lines.len()
        invariant
            0 <= k <= lines@.len(),
            views2(lines@) == all_lines,
            ({
                let st = obj_fold(all_lines.take(k as int));
                &&& positions@ == st.positions
                &&& normals@ == st.normals
                &&& mesh.faces@.len() == st.faces.len()
                &&& forall|i: int|
                    0 <= i < mesh.faces@.len() ==> (#[trigger] mesh.faces@[i]).vertices@
                        == st.faces[i] && mesh.faces@[i].material == Face::new_material()
            }),
            mesh.position == (Vec3 { x: 0i32, y: 0i32, z: 0i32 }),
            mesh.scale == 1i32,
        decreases lines@.len() - k,
    {
        proof {
            assert(all_lines.take(k + 1).drop_last() =~= all_lines.take(k as int));
            assert(all_lines.take(k + 1).last() == views2(lines@)[k as int]);
        }
        let line = &lines[k];
        process_line(line, &mut positions, &mut normals, &mut mesh);
        k = k + 1;
    }
    proof {
        assert(all_lines.take(all_lines.len() as int) =~= all_lines);
    }
    mesh
}

/// The byte views of a list of byte vectors.
pub open spec fn views2(s: Seq<Vec<u8>>) -> Seq<Seq<u8>> {
    Seq::new(s.len(), |i: int| s[i]@)
}

/// Applies one line to the reader's state.
fn process_line(line: &Vec<u8>, positions: &mut Vec<Vec3>, normals: &mut Vec<Vec3>, mesh: &mut Mesh)
    ensures
        ({
            let st = ObjState {
                positions: old(positions)@,
                normals: old(normals)@,
                faces: Seq::new(old(mesh).faces@.len(), |i: int| old(mesh).faces@[i].vertices@),
            };
            let st2 = line_step(st, line@);
            &&& final(positions)@ == st2.positions
            &&& final(normals)@ == st2.normals
            &&& final(mesh).faces@.len() == st2.faces.len()
            &&& forall|i: int|
                0 <= i < old(mesh).faces@.len() ==> #[trigger] final(mesh).faces@[i] == old(
                    mesh,
                ).faces@[i]
            &&& (st2.faces.len() > st.faces.len() ==> final(mesh).faces@.last().vertices@
                == st2.faces.last() && final(mesh).faces@.last().material == Face::new_material())
            &&& final(mesh).position == old(mesh).position
            &&& final(mesh).scale == old(mesh).scale
        }),
{
    let toks = tokenize(line);
    let ghost st = ObjState {
        positions: old(positions)@,
        normals: old(normals)@,
        faces: Seq::new(old(mesh).faces@.len(), |i: int| old(mesh).faces@[i].vertices@),
    };

    if toks.len() == 0 {
        return ;
    }
    let head = &toks[0];
    let is_v = head.len() == 1 && head[0] == 118;
    let is_vn = head.len() == 2 && head[0] == 118 && head[1] == 110;
    let is_f = head.len() == 1 && head[0] == 102;
    proof {
        assert(is_v == (head@ =~= seq![118u8]));
        assert(is_vn == (head@ =~= seq![118u8, 110u8]));
        assert(is_f == (head@ =~= seq![102u8]));
    }

    if is_v && toks.len() >= 4 {
        let x = parse_fixed(&toks[1]);
        let y = parse_fixed(&toks[2]);
        let z = parse_fixed(&toks[3]);
        positions.push(Vec3 { x, y, z });
        return ;
    }
    if is_vn && toks.len() >= 4 {
        let x = parse_fixed(&toks[1]);
        let y = parse_fixed(&toks[2]);
        let z = parse_fixed(&toks[3]);
        normals.push(Vec3 { x, y, z });
        return ;
    }
    if is_f && toks.len() >= 2 {
        let mut face = Face::new();
        let mut j: usize = 1;
        while j < toks.len()
            invariant
                1 <= j <= toks@.len(),
                toks@.len() >= 2,
                positions@ == st.positions,
                normals@ == st.normals,
                face.material == Face::new_material(),
                face.vertices@ == Seq::new(
                    (j - 1) as nat,
                    |i: int| vertex_of_token(st, toks@[i + 1]@),
                ),
            decreases toks@.len() - j,
        {
            let vert = resolve_vertex(&toks[j], positions, normals);
            face.append_vertex(vert);
            proof {
                assert(face.vertices@ =~= Seq::new(
                    j as nat,
                    |i: int| vertex_of_token(st, toks@[i + 1]@),
                ));
            }
            j = j + 1;
        }
        mesh.append_face(face);
        proof {
            let toks_spec = tokens_of(line@);
            assert(face.vertices@ =~= Seq::new(
                (toks_spec.len() - 1) as nat,
                |i: int| vertex_of_token(st, toks_spec[i + 1]),
            ));
            assert(Seq::new(
                mesh.faces@.len(),
                |i: int| mesh.faces@[i].vertices@,
            ) =~= line_step(st, line@).faces);
        }
        return ;
    }
}

/// Resolves one face-corner token against the vertices read so far.
fn resolve_vertex(tok: &Vec<u8>, positions: &Vec<Vec3>, normals: &Vec<Vec3>) -> (v: Vertex)
    ensures
        v == vertex_of_token(
            ObjState { positions: positions@, normals: normals@, faces: Seq::empty() },
            tok@,
        ),
{
    let segs = split_on(tok, 47);
    proof {
        lemma_split_keep_nonempty(tok@, 47);
    }
    let pi = parse_index(&segs[0]);
    let position = if pi < positions.len() {
        positions[pi]
    } else {
        Vec3::zero()
    };
    let normal = if segs.len() >= 3 && segs[2].len() > 0 {
        let ni = parse_index(&segs[2]);
        if ni < normals.len() {
            normals[ni]
        } else {
            Vec3::new(0, 1000, 0)
        }
    } else {
        Vec3::new(0, 1000, 0)
    };
    Vertex { position, normal }
}

/// A split always yields at least one piece.
proof fn lemma_split_keep_nonempty(s: Seq<u8>, sep: u8)
    ensures
        split_keep(s, sep).len() >= 1,
{
    lemma_split_acc_nonempty(s, Seq::empty(), sep);
}

proof fn lemma_split_acc_nonempty(rest: Seq<u8>, cur: Seq<u8>, sep: u8)
    ensures
        split_acc(rest, cur, sep).len() >= 1,
    decreases rest.len(),
{
    if rest.len() > 0 {
        if rest.first() == sep {
            lemma_split_acc_nonempty(rest.drop_first(), Seq::empty(), sep);
        } else {
            lemma_split_acc_nonempty(rest.drop_first(), cur.push(rest.first()), sep);
        }
    }
}

/// Splits the file into its lines.
fn split_lines(data: &Vec<u8>) -> (lines: Vec<Vec<u8>>)
    ensures
        views2(lines@) == lines_of(data@),
{
    let mut lines: Vec<Vec<u8>> = Vec::new();
    let mut cur: Vec<u8> = Vec::new();
    let mut k: usize = 0;
    proof {
        assert(data@.skip(0) =~= data@);
        assert(views2(lines@) =~= Seq::<Seq<u8>>::empty());
    }
    while k < data.len()
        invariant
            0 <= k <= data@.len(),
            views2(lines@) + lines_acc(data@.skip(k as int), cur@) == lines_of(data@),
        decreases data@.len() - k,
    {
        let b = data[k];
        proof {
            assert(data@.skip(k as int).first() == data@[k as int]);
            assert(data@.skip(k as int).drop_first() =~= data@.skip(k + 1));
        }
        if b == 10 {
            lines.push(cur);
            cur = Vec::new();
            proof {
                assert(views2(lines@) + lines_acc(data@.skip(k + 1), cur@) =~= lines_of(data@));
            }
        } else {
            cur.push(b);
            proof {
                assert(views2(lines@) + lines_acc(data@.skip(k + 1), cur@) =~= lines_of(data@));
            }
        }
        k = k + 1;
    }
    if cur.len() > 0 {
        lines.push(cur);
    }
    proof {
        assert(views2(lines@) =~= lines_of(data@));
    }
    lines
}

/// Splits a token at every separator, keeping empty pieces.
fn split_on(data: &Vec<u8>, sep: u8) -> (segs: Vec<Vec<u8>>)
    ensures
        views2(segs@) == split_keep(data@, sep),
{
    let mut segs: Vec<Vec<u8>> = Vec::new();
    let mut cur: Vec<u8> = Vec::new();
    let mut k: usize = 0;
    proof {
        assert(data@.skip(0) =~= data@);
        assert(views2(segs@) =~= Seq::<Seq<u8>>::empty());
    }
    while k < data.len()
        invariant
            0 <= k <= data@.len(),
            views2(segs@) + split_acc(data@.skip(k as int), cur@, sep) == split_keep(data@, sep),
        decreases data@.len() - k,
    {
        let b = data[k];
        proof {
            assert(data@.skip(k as int).first() == data@[k as int]);
            assert(data@.skip(k as int).drop_first() =~= data@.skip(k + 1));
        }
        if b == sep {
            segs.push(cur);
            cur = Vec::new();
            proof {
                assert(views2(segs@) + split_acc(data@.skip(k + 1), cur@, sep) =~= split_keep(
                    data@,
                    sep,
                ));
            }
        } else {
            cur.push(b);
            proof {
                assert(views2(segs@) + split_acc(data@.skip(k + 1), cur@, sep) =~= split_keep(
                    data@,
                    sep,
                ));
            }
        }
        k = k + 1;
    }
    segs.push(cur);
    proof {
        assert(views2(segs@) =~= split_keep(data@, sep));
    }
    segs
}

/// Splits a line into whitespace-separated words.
fn tokenize(line: &Vec<u8>) -> (toks: Vec<Vec<u8>>)
    ensures
        views2(toks@) == tokens_of(line@),
{
    let mut toks: Vec<Vec<u8>> = Vec::new();
    let mut cur: Vec<u8> = Vec::new();
    let mut k: usize = 0;
    proof {
        assert(line@.skip(0) =~= line@);
        assert(views2(toks@) =~= Seq::<Seq<u8>>::empty());
    }
    while k < line.len()
        invariant
            0 <= k <= line@.len(),
            views2(toks@) + tokens_acc(line@.skip(k as int), cur@) == tokens_of(line@),
        decreases line@.len() - k,
    {
        let b = line[k];
        proof {
            assert(line@.skip(k as int).first() == line@[k as int]);
            assert(line@.skip(k as int).drop_first() =~= line@.skip(k + 1));
        }
        if b == 32 || b == 9 || b == 13 {
            let ghost cur_prev = cur@;
            if cur.len() > 0 {
                toks.push(cur);
                cur = Vec::new();
                proof {
                    assert(tokens_acc(line@.skip(k as int), cur_prev) == seq![cur_prev]
                        + tokens_acc(line@.skip(k + 1), Seq::empty()));
                    assert(views2(toks@) =~= views2(toks@.drop_last()) + seq![cur_prev]);
                    assert(views2(toks@) + tokens_acc(line@.skip(k + 1), cur@) =~= tokens_of(
                        line@,
                    ));
                }
            } else {
                proof {
                    assert(cur_prev.len() == 0);
                    assert(tokens_acc(line@.skip(k as int), cur_prev) == tokens_acc(
                        line@.skip(k + 1),
                        Seq::empty(),
                    ));
                    assert(cur@ =~= Seq::<u8>::empty());
                    assert(views2(toks@) + tokens_acc(line@.skip(k + 1), cur@) =~= tokens_of(
                        line@,
                    ));
                }
            }
        } else {
            cur.push(b);
            proof {
                assert(views2(toks@) + tokens_acc(line@.skip(k + 1), cur@) =~= tokens_of(line@));
            }
        }
        k = k + 1;
    }
    if cur.len() > 0 {
        toks.push(cur);
    }
    proof {
        assert(views2(toks@) =~= tokens_of(line@));
    }
    toks
}

/// Reads a digit string up to the cap. Returns the value and whether the
/// string exceeded the cap.
fn digits_capped(s: &Vec<u8>) -> (r: (u64, bool))
    requires
        all_digits(s@),
    ensures
        !r.1 ==> r.0 == digits_val(s@) && digits_val(s@) <= index_cap(),
        r.1 ==> digits_val(s@) > index_cap(),
{
    let mut val: u64 = 0;
    let mut k: usize = 0;
    proof {
        assert(s@.take(0) =~= Seq::<u8>::empty());
    }
    while k < s.len()
        invariant
            0 <= k <= s@.len(),
            all_digits(s@),
            val == digits_val(s@.take(k as int)),
            val <= index_cap(),
        decreases s@.len() - k,
    {
        let d = s[k];
        proof {
            assert(s@.take(k + 1).drop_last() =~= s@.take(k as int));
            assert(s@.take(k + 1).last() == s@[k as int]);
            assert(is_digit(s@[k as int]));
        }
        val = val * 10 + ((d - 48) as u64);
        if val > 0xFFFF_FFFF {
            proof {
                lemma_digits_val_monotone(s@, k + 1);
            }
            return (0, true);
        }
        k = k + 1;
    }
    proof {
        assert(s@.take(s@.len() as int) =~= s@);
    }
    (val, false)
}

/// Checks that a token is all digits.
fn check_digits(s: &Vec<u8>) -> (r: bool)
    ensures
        r == all_digits(s@),
{
    let mut k: usize = 0;
    while k < s.len()
        invariant
            0 <= k <= s@.len(),
            forall|i: int| 0 <= i < k ==> is_digit(#[trigger] s@[i]),
        decreases s@.len() - k,
    {
        let b = s[k];
        if b < 48 || b > 57 {
            return false;
        }
        k = k + 1;
    }
    true
}

/// Reads a one-based index token as [`index_of_token`] says.
fn parse_index(s: &Vec<u8>) -> (i: usize)
    ensures
        i == index_of_token(s@),
{
    if s.len() == 0 || !check_digits(s) {
        return 0;
    }
    let (val, over) = digits_capped(s);
    if over || val == 0 {
        return 0;
    }
    (val - 1) as usize
}

/// Reads a fixed-point decimal token as [`fixed_of_token`] says.
fn parse_fixed(s: &Vec<u8>) -> (v: i32)
    ensures
        v == fixed_of_token(s@),
{
    let neg = s.len() > 0 && s[0] == 45;
    let has_sign = s.len() > 0 && (s[0] == 45 || s[0] == 43);
    let mut t: Vec<u8> = Vec::new();
    let mut k: usize = if has_sign {
        1
    } else {
        0
    };
    let ghost tspec = if has_sign {
        s@.drop_first()
    } else {
        s@
    };
    proof {
        assert(t@ =~= tspec.take(0));
    }
    let start = k;
    while k < s.len()
        invariant
            start <= k <= s@.len(),
            start == if has_sign {
                1int
            } else {
                0int
            },
            tspec == if has_sign {
                s@.drop_first()
            } else {
                s@
            },
            t@ == tspec.take(k - start),
        decreases s@.len() - k,
    {
        proof {
            assert(tspec.take(k - start + 1) =~= tspec.take(k - start).push(s@[k as int]));
        }
        t.push(s[k]);
        k = k + 1;
    }
    proof {
        assert(t@ =~= tspec);
    }

    let segs = split_on(&t, 46);
    proof {
        lemma_split_keep_nonempty(t@, 46);
    }

    let ok: bool = if segs.len() == 1 {
        let d0 = check_digits(&segs[0]);
        segs[0].len() > 0 && d0
    } else if segs.len() == 2 {
        let d0 = check_digits(&segs[0]);
        let d1 = check_digits(&segs[1]);
        segs[0].len() > 0 && d0 && d1
    } else {
        false
    };
    if !ok {
        return 0;
    }

    let (ival, over) = digits_capped(&segs[0]);
    if over || ival > 2_000_000 {
        return 0;
    }

    let frac: u64 = if segs.len() == 2 {
        frac3_exec(&segs[1])
    } else {
        0
    };

    let magnitude: i64 = (ival as i64) * 1000 + (frac as i64);
    if neg {
        (-magnitude) as i32
    } else {
        magnitude as i32
    }
}

/// The first three fraction digits of a digit string, zero-padded.
fn frac3_exec(s: &Vec<u8>) -> (f: u64)
    requires
        all_digits(s@),
    ensures
        f == frac3(s@),
        f < 1000,
{
    let d0: u64 = if s.len() > 0 {
        (s[0] - 48) as u64
    } else {
        0
    };
    let d1: u64 = if s.len() > 1 {
        (s[1] - 48) as u64
    } else {
        0
    };
    let d2: u64 = if s.len() > 2 {
        (s[2] - 48) as u64
    } else {
        0
    };
    proof {
        let padded = (s@ + seq![48u8, 48u8, 48u8]).take(3);
        assert(padded.len() == 3);
        assert(padded.drop_last() =~= (s@ + seq![48u8, 48u8, 48u8]).take(2));
        assert(padded.drop_last().drop_last() =~= (s@ + seq![48u8, 48u8, 48u8]).take(1));
        assert(padded.drop_last().drop_last().drop_last() =~= Seq::<u8>::empty());
        assert(is_digit(padded[0]) && is_digit(padded[1]) && is_digit(padded[2]));
        assert(padded[0] == d0 + 48 && padded[1] == d1 + 48 && padded[2] == d2 + 48);
        assert(padded.last() == padded[2]);
        assert(padded.drop_last().last() == padded[1]);
        assert(padded.drop_last().drop_last().last() == padded[0]);
        assert(digits_val(padded.drop_last().drop_last().drop_last()) == 0);
        assert(digits_val(padded.drop_last().drop_last()) == digits_val(
            padded.drop_last().drop_last().drop_last(),
        ) * 10 + (padded.drop_last().drop_last().last() - 48));
        assert(digits_val(padded.drop_last()) == digits_val(padded.drop_last().drop_last()) * 10 + (
        padded.drop_last().last() - 48));
        assert(digits_val(padded) == digits_val(padded.drop_last()) * 10 + (padded.last() - 48));
    }
    d0 * 100 + d1 * 10 + d2
}

} // verus!
