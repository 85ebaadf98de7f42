use vstd::prelude::*;
use crate::bytes::{contains, contains_exec, is_space, is_space_byte};
use crate::error::EngineError;

verus! {

/// Header line that starts the vertex section: `Vertices`.
pub open spec fn vertices_header() -> Seq<u8> {
    seq![86u8, 101u8, 114u8, 116u8, 105u8, 99u8, 101u8, 115u8]
}

/// Header line that starts the index section: `Indices`.
pub open spec fn indices_header() -> Seq<u8> {
    seq![73u8, 110u8, 100u8, 105u8, 99u8, 101u8, 115u8]
}

fn vertices_header_exec() -> (r: Vec<u8>)
    ensures
        r@ == vertices_header(),
{
    let r: Vec<u8> = vec![86u8, 101u8, 114u8, 116u8, 105u8, 99u8, 101u8, 115u8];
    assert(r@ == vertices_header());
    r
}

fn indices_header_exec() -> (r: Vec<u8>)
    ensures
        r@ == indices_header(),
{
    let r: Vec<u8> = vec![73u8, 110u8, 100u8, 105u8, 99u8, 101u8, 115u8];
    assert(r@ == indices_header());
    r
}

/// Whitespace splitting of the first `n` bytes: the finished tokens and the token in progress.
pub open spec fn scan_tokens(s: Seq<u8>, n: nat) -> (Seq<Seq<u8>>, Seq<u8>)
    decreases n,
{
    if n == 0 || n > s.len() {
        (seq![], seq![])
    } else {
        let prev = scan_tokens(s, (n - 1) as nat);
        let b = s[n - 1];
        if is_space(b) {
            if prev.1.len() > 0 {
                (prev.0.push(prev.1), seq![])
            } else {
                prev
            }
        } else {
            (prev.0, prev.1.push(b))
        }
    }
}

/// The whitespace-separated tokens of a line, in order.
pub open spec fn tokens_of(s: Seq<u8>) -> Seq<Seq<u8>> {
    let st = scan_tokens(s, s.len());
    if st.1.len() > 0 {
        st.0.push(st.1)
    } else {
        st.0
    }
}

/// The contents of a sequence of byte strings.
pub open spec fn views(v: Seq<Vec<u8>>) -> Seq<Seq<u8>> {
    v.map_values(|x: Vec<u8>| x@)
}

pub fn split_tokens(line: &Vec<u8>) -> (r: Vec<Vec<u8>>)
    ensures
        views(r@) == tokens_of(line@),
{
    let mut done: Vec<Vec<u8>> = Vec::new();
    let mut cur: Vec<u8> = Vec::new();
    let mut i: usize = 0;
    while i < line.len()
        invariant
            i <= line@.len(),
            views(done@) == scan_tokens(line@, i as nat).0,
            cur@ == scan_tokens(line@, i as nat).1,
        decreases line@.len() - i,
    {
        let b = line[i];
        if is_space_byte(b) {
            if cur.len() > 0 {
                let ghost old_done = views(done@);
                let finished = cur;
                cur = Vec::new();
                done.push(finished);
                assert(views(done@) =~= old_done.push(finished@));
            }
        } else {
            cur.push(b);
        }
        i += 1;
    }
    if cur.len() > 0 {
        let ghost old_done = views(done@);
        let ghost c = cur@;
        done.push(cur);
        assert(views(done@) =~= old_done.push(c));
    }
    done
}

pub open spec fn is_digit(b: u8) -> bool {
    48u8 <= b <= 57u8
}

/// The value of a string of decimal digits.
pub open spec fn digits_value(s: Seq<u8>) -> nat
    decreases s.len(),
{
    if s.len() == 0 {
        0
    } else {
        digits_value(s.drop_last()) * 10 + (s.last() - 48u8) as nat
    }
}

/// The digits of an unsigned number, after an optional leading `+` (byte 43).
pub open spec fn unsigned_digits(tok: Seq<u8>) -> Seq<u8> {
    if tok.len() > 0 && tok[0] == 43u8 {
        tok.drop_first()
    } else {
        tok
    }
}

/// What `u32::from_str` accepts: an optional `+`, then at least one digit, with a value that fits.
pub open spec fn parse_u32_spec(tok: Seq<u8>) -> Option<u32> {
    let d = unsigned_digits(tok);
    if d.len() > 0 && (forall|i: int| 0 <= i < d.len() ==> is_digit(d[i])) && digits_value(d)
        <= u32::MAX {
        Some(digits_value(d) as u32)
    } else {
        None
    }
}

proof fn lemma_digits_prefix_le(s: Seq<u8>, k: int)
    requires
        0 <= k <= s.len(),
        forall|i: int| 0 <= i < s.len() ==> is_digit(s[i]),
    ensures
        digits_value(s.take(k)) <= digits_value(s),
    decreases s.len() - k,
{
    if k < s.len() {
        lemma_digits_prefix_le(s, k + 1);
        assert(s.take(k + 1).drop_last() =~= s.take(k));
    } else {
        assert(s.take(k) =~= s);
    }
}

pub fn parse_u32(tok: &Vec<u8>) -> (r: Option<u32>)
    ensures
        r == parse_u32_spec(tok@),
{
    let n: usize = tok.len();
    let start: usize = if n > 0 && tok[0] == 43u8 {
        1
    } else {
        0
    };
    let ghost d = unsigned_digits(tok@);
    assert(d =~= tok@.subrange(start as int, n as int));
    if start >= n {
        return None;
    }
    let mut j: usize = start;
    while j < n
        invariant
            n == tok@.len(),
            start <= j <= n,
            d == unsigned_digits(tok@),
            d =~= tok@.subrange(start as int, n as int),
            forall|i: int| start <= i < j ==> is_digit(tok@[i]),
        decreases n - j,
    {
        if tok[j] < 48u8 || tok[j] > 57u8 {
            assert(!is_digit(d[j - start]));
            return None;
        }
        j += 1;
    }
    assert(forall|i: int| 0 <= i < d.len() ==> is_digit(d[i]));
    let mut value: u64 = 0;
    let mut k: usize = start;
    while k < n
        invariant
            n == tok@.len(),
            start <= k <= n,
            d == unsigned_digits(tok@),
            d =~= tok@.subrange(start as int, n as int),
            forall|i: int| 0 <= i < d.len() ==> is_digit(d[i]),
            value as nat == digits_value(d.take(k - start)),
            value <= u32::MAX,
        decreases n - k,
    {
        assert(d.take(k - start + 1).drop_last() =~= d.take(k - start));
        assert(d[k - start] == tok@[k as int]);
        assert(is_digit(tok@[k as int]));
        let next: u64 = value * 10 + (tok[k] - 48u8) as u64;
        if next > 4294967295u64 {
            proof {
                lemma_digits_prefix_le(d, k - start + 1);
            }
            return None;
        }
        value = next;
        k += 1;
    }
    assert(d.take(n - start) =~= d);
    Some(value as u32)
}

/// One vertex: its first eight fields as text (position, normal, texture coordinate).
pub type VertexFields = Seq<Seq<u8>>;

/// Parse state after a prefix of the lines: whether the index section is open, the
/// vertices and the indices read so far; or the number of the first line that is malformed.
pub open spec fn mesh_prefix(lines: Seq<Seq<u8>>, n: nat) -> Result<
    (bool, Seq<VertexFields>, Seq<u32>),
    nat,
>
    decreases n,
{
    if n == 0 || n > lines.len() {
        Ok((false, seq![], seq![]))
    } else {
        match mesh_prefix(lines, (n - 1) as nat) {
            Err(e) => Err(e),
            Ok(st) => {
                let line = lines[n - 1];
                if contains(line, vertices_header()) {
                    Ok((false, st.1, st.2))
                } else if contains(line, indices_header()) {
                    Ok((true, st.1, st.2))
                } else if !st.0 {
                    let t = tokens_of(line);
                    if t.len() >= 8 {
                        Ok((false, st.1.push(t.take(8)), st.2))
                    } else {
                        Err((n - 1) as nat)
                    }
                } else {
                    let t = tokens_of(line);
                    if t.len() >= 1 && parse_u32_spec(t[0]) is Some {
                        Ok((true, st.1, st.2.push(parse_u32_spec(t[0])->Some_0)))
                    } else {
                        Err((n - 1) as nat)
                    }
                }
            },
        }
    }
}

proof fn lemma_error_persists(lines: Seq<Seq<u8>>, n: nat, m: nat, e: nat)
    requires
        n <= m <= lines.len(),
        mesh_prefix(lines, n) == Err::<(bool, Seq<VertexFields>, Seq<u32>), nat>(e),
    ensures
        mesh_prefix(lines, m) == Err::<(bool, Seq<VertexFields>, Seq<u32>), nat>(e),
    decreases m - n,
{
    if n < m {
        lemma_error_persists(lines, n, (m - 1) as nat, e);
    }
}

pub open spec fn mesh_vertices(v: Seq<Vec<Vec<u8>>>) -> Seq<VertexFields> {
    v.map_values(|x: Vec<Vec<u8>>| views(x@))
}

pub open spec fn is_header(line: Seq<u8>) -> bool {
    contains(line, vertices_header()) || contains(line, indices_header())
}

/// Whether the index section is open after the first `n` lines.
pub open spec fn index_section_after(lines: Seq<Seq<u8>>, n: nat) -> bool
    decreases n,
{
    if n == 0 || n > lines.len() {
        false
    } else if contains(lines[n - 1], vertices_header()) {
        false
    } else if contains(lines[n - 1], indices_header()) {
        true
    } else {
        index_section_after(lines, (n - 1) as nat)
    }
}

/// Number of the first `n` lines that are data lines of the index section.
pub open spec fn index_line_count(lines: Seq<Seq<u8>>, n: nat) -> nat
    decreases n,
{
    if n == 0 || n > lines.len() {
        0
    } else {
        index_line_count(lines, (n - 1) as nat) + if !is_header(lines[n - 1]) && index_section_after(
            lines,
            (n - 1) as nat,
        ) {
            1nat
        } else {
            0nat
        }
    }
}

/// Number of the first `n` lines that are data lines of the vertex section.
pub open spec fn vertex_line_count(lines: Seq<Seq<u8>>, n: nat) -> nat
    decreases n,
{
    if n == 0 || n > lines.len() {
        0
    } else {
        vertex_line_count(lines, (n - 1) as nat) + if !is_header(lines[n - 1]) && !index_section_after(
            lines,
            (n - 1) as nat,
        ) {
            1nat
        } else {
            0nat
        }
    }
}

/// A mesh text that parses has one vertex per vertex line and one index per index
/// line, so its draw call covers exactly as many indices as the file has index lines.
pub proof fn lemma_mesh_line_counts(lines: Seq<Seq<u8>>, n: nat)
    requires
        n <= lines.len(),
    ensures
        mesh_prefix(lines, n) matches Ok(st) ==> st.0 == index_section_after(lines, n) && st.1.len()
            == vertex_line_count(lines, n) && st.2.len() == index_line_count(lines, n),
    decreases n,
{
    if n > 0 {
        lemma_mesh_line_counts(lines, (n - 1) as nat);
    }
}

/// A parsed mesh file: vertex fields as text, and the index stream.
pub struct MeshData {
    pub vertices: Vec<Vec<Vec<u8>>>,
    pub indices: Vec<u32>,
}

impl MeshData {
    pub open spec fn vertices_view(&self) -> Seq<VertexFields> {
        mesh_vertices(self.vertices@)
    }

    pub fn index_count(&self) -> (r: usize)
        ensures
            r == self.indices@.len(),
    {
        self.indices.len()
    }

    pub fn vertex_count(&self) -> (r: usize)
        ensures
            r == self.vertices@.len(),
    {
        self.vertices.len()
    }
}

/// Parses the two-section mesh text, given as its lines. A header line (one that
/// contains `Vertices` or `Indices`) switches the section; the vertex section comes
/// first. A vertex line needs eight fields, an index line one unsigned integer.
/// On a malformed line the result is `MalformedMesh` with that line's number, counted from 0.
pub fn parse_mesh(lines: &Vec<Vec<u8>>) -> (r: Result<MeshData, EngineError>)
    ensures
        match mesh_prefix(views(lines@), lines@.len()) {
            Ok(st) => r matches Ok(m) && m.vertices_view() == st.1 && m.indices@ == st.2,
            Err(e) => r matches Err(EngineError::MalformedMesh { line }) && line == e,
        },
{
    let vh = vertices_header_exec();
    let ih = indices_header_exec();
    let ghost ls = views(lines@);
    let mut index_mode = false;
    let mut vertices: Vec<Vec<Vec<u8>>> = Vec::new();
    let mut indices: Vec<u32> = Vec::new();
    let mut i: usize = 0;
    assert(mesh_vertices(vertices@) =~= Seq::<VertexFields>::empty());
    assert(indices@ =~= Seq::<u32>::empty());
    while i < lines.len()
        invariant
            ls == views(lines@),
            ls.len() == lines@.len(),
            i <= lines@.len(),
            vh@ == vertices_header(),
            ih@ == indices_header(),
            mesh_prefix(ls, i as nat) == Ok::<(bool, Seq<VertexFields>, Seq<u32>), nat>(
                (index_mode, mesh_vertices(vertices@), indices@),
            ),
        decreases lines@.len() - i,
    {
        let line = &lines[i];
        assert(line@ == ls[i as int]);
        if contains_exec(line, &vh) {
            index_mode = false;
        } else if contains_exec(line, &ih) {
            index_mode = true;
        } else if !index_mode {
            let t = split_tokens(line);
            if t.len() < 8 {
                proof {
                    lemma_error_persists(ls, (i + 1) as nat, ls.len(), i as nat);
                }
                return Err(EngineError::MalformedMesh { line: i });
            }
            let mut fields: Vec<Vec<u8>> = Vec::new();
            let mut k: usize = 0;
            while k < 8
                invariant
                    views(t@) == tokens_of(line@),
                    t@.len() >= 8,
                    k <= 8,
                    views(fields@) =~= views(t@).take(k as int),
                decreases 8 - k,
            {
                let ghost before = views(fields@);
                fields.push(t[k].clone());
                assert(views(fields@) =~= before.push(views(t@)[k as int]));
                k += 1;
            }
            let ghost old_v = mesh_vertices(vertices@);
            let ghost fv = views(fields@);
            vertices.push(fields);
            assert(mesh_vertices(vertices@) =~= old_v.push(fv));
        } else {
            let t = split_tokens(line);
            if t.len() < 1 {
                proof {
                    lemma_error_persists(ls, (i + 1) as nat, ls.len(), i as nat);
                }
                return Err(EngineError::MalformedMesh { line: i });
            }
            assert(t@[0]@ == tokens_of(line@)[0]);
            match parse_u32(&t[0]) {
                Some(v) => {
                    indices.push(v);
                },
                None => {
                    proof {
                        lemma_error_persists(ls, (i + 1) as nat, ls.len(), i as nat);
                    }
                    return Err(EngineError::MalformedMesh { line: i });
                },
            }
        }
        i += 1;
    }
    Ok(MeshData { vertices, indices })
}

} // verus!
