//! Source maps (source-map v3) for the emitted JavaScript.
//!
//! Mappings are gathered line by line.  The `mappings` field holds one
//! `;`-separated group per generated line and one `,`-separated segment per
//! mapping, each field a Base64 VLQ delta: the generated column from the
//! previous segment of the line, and the source file, line, column and name
//! from the previous segment that had them.

use vstd::prelude::*;
use crate::text::{string_of, push_str, push_char};
use crate::token::{str_debug, str_debug_text};

verus! {

/// One mapping from a generated column to a source position.
#[derive(Debug, Clone)]
pub struct Mapping {
    pub gen_col: u32,
    pub src_file: Option<u32>,
    pub src_line: Option<u32>,
    pub src_col: Option<u32>,
    pub name: Option<u32>,
}

pub struct SourceMap {
    /// Generated file name.
    pub file: String,
    /// Original source file paths.
    pub sources: Vec<String>,
    /// Raw mapping entries, one list per generated line.
    mappings: Vec<Vec<Mapping>>,
    /// Delta-encoding state.
    prev_src_line: i64,
    prev_src_col: i64,
    prev_src_file: i64,
    prev_name: i64,
}

/// The `sources` array's body: each path in `{:?}` form, comma-separated.
pub open spec fn sources_json(ss: Seq<Seq<char>>) -> Seq<char>
    decreases ss.len(),
{
    if ss.len() == 0 {
        seq![]
    } else if ss.len() == 1 {
        str_debug_text(ss[0])
    } else {
        sources_json(ss.drop_last()) + ","@ + str_debug_text(ss.last())
    }
}

/// The state that deltas are taken from: the last source file, line,
/// column and name written.
pub type VlqState = (int, int, int, int);

/// A mapping that names a source position.
pub open spec fn has_source(m: Mapping) -> bool {
    m.src_file is Some && m.src_line is Some && m.src_col is Some
}

/// The fields of one segment: the generated column from `prev_col`, then,
/// where the mapping names a source position, that position (and a name)
/// from the state `st`.
pub open spec fn segment_text(m: Mapping, prev_col: int, st: VlqState) -> Seq<char> {
    vlq(m.gen_col - prev_col) + if has_source(m) {
        vlq(m.src_file->0 - st.0) + vlq(m.src_line->0 - st.1) + vlq(m.src_col->0 - st.2) + match m.name {
            Some(n) => vlq(n - st.3),
            None => seq![],
        }
    } else {
        seq![]
    }
}

/// The state after writing the segment of `m`.
pub open spec fn segment_state(m: Mapping, st: VlqState) -> VlqState {
    if has_source(m) {
        (m.src_file->0 as int, m.src_line->0 as int, m.src_col->0 as int, match m.name {
            Some(n) => n as int,
            None => st.3,
        })
    } else {
        st
    }
}

/// The segments of one line, and the state after them.
pub open spec fn line_encoding(ms: Seq<Mapping>, st: VlqState) -> (Seq<char>, VlqState)
    decreases ms.len(),
{
    if ms.len() == 0 {
        (seq![], st)
    } else {
        let (t, s1) = line_encoding(ms.drop_last(), st);
        let prev_col: int = if ms.len() > 1 { ms[ms.len() - 2].gen_col as int } else { 0 };
        (t + (if ms.len() > 1 { ","@ } else { seq![] }) + segment_text(ms.last(), prev_col, s1), segment_state(
            ms.last(),
            s1,
        ))
    }
}

/// The groups of all lines, `;`-separated, and the state after them.
pub open spec fn lines_encoding(ls: Seq<Seq<Mapping>>, st: VlqState) -> (Seq<char>, VlqState)
    decreases ls.len(),
{
    if ls.len() == 0 {
        (seq![], st)
    } else {
        let (t, s1) = lines_encoding(ls.drop_last(), st);
        let (lt, s2) = line_encoding(ls.last(), s1);
        (t + (if ls.len() > 1 { ";"@ } else { seq![] }) + lt, s2)
    }
}

/// The `mappings` field for the lines `ls`.
pub open spec fn mappings_text(ls: Seq<Seq<Mapping>>) -> Seq<char> {
    lines_encoding(ls, (0, 0, 0, 0)).0
}

/// The JSON document of a source map.
pub open spec fn map_json(file: Seq<char>, sources: Seq<Seq<char>>, lines: Seq<Seq<Mapping>>) -> Seq<char> {
    "{\"version\":3,\"file\":"@ + str_debug_text(file) + ",\"sources\":["@ + sources_json(sources)
        + "],\"mappings\":"@ + str_debug_text(mappings_text(lines)) + "}"@
}

impl SourceMap {
    /// The mappings gathered so far, one list per generated line.
    pub closed spec fn lines(&self) -> Seq<Seq<Mapping>> {
        Seq::new(self.mappings@.len(), |i: int| self.mappings@[i]@)
    }

    /// The generated file's name.
    pub closed spec fn file_text(&self) -> Seq<char> {
        self.file@
    }

    /// The source paths.
    pub closed spec fn source_texts(&self) -> Seq<Seq<char>> {
        self.sources@.map_values(|x: String| x@)
    }

    /// There is always a current line.
    pub closed spec fn wf(&self) -> bool {
        self.mappings@.len() >= 1
    }

    pub fn new(file: &str, sources: &[&str]) -> (sm: SourceMap)
        ensures
            sm.wf(),
            sm.file_text() == file@,
            sm.source_texts().len() == sources@.len(),
            forall|i: int| 0 <= i < sources@.len() ==> #[trigger] sm.source_texts()[i] == sources@[i]@,
            sm.lines() == seq![Seq::<Mapping>::empty()],
    {
        let mut srcs: Vec<String> = Vec::new();
        let mut i: usize = 0;
        while i < sources.len()
            invariant
                i <= sources@.len(),
                srcs@.len() == i,
                forall|k: int| 0 <= k < i ==> #[trigger] srcs@[k]@ == sources@[k]@,
            decreases sources.len() - i,
        {
            srcs.push(string_of(sources[i]));
            i = i + 1;
        }
        let mut mappings: Vec<Vec<Mapping>> = Vec::new();
        mappings.push(Vec::new());
        let sm = SourceMap {
            file: string_of(file),
            sources: srcs,
            mappings,
            prev_src_line: 0,
            prev_src_col: 0,
            prev_src_file: 0,
            prev_name: 0,
        };
        assert(sm.lines() =~= seq![Seq::<Mapping>::empty()]);
        sm
    }

    /// Starts a new generated line.
    pub fn new_line(&mut self)
        requires
            old(self).wf(),
        ensures
            final(self).wf(),
            final(self).lines() == old(self).lines().push(Seq::<Mapping>::empty()),
            final(self).file_text() == old(self).file_text(),
            final(self).source_texts() == old(self).source_texts(),
    {
        self.mappings.push(Vec::new());
        assert(self.lines() =~= old(self).lines().push(Seq::<Mapping>::empty()));
    }

    /// Adds a mapping to the current line.
    pub fn add_mapping(&mut self, m: Mapping)
        requires
            old(self).wf(),
        ensures
            final(self).wf(),
            final(self).lines() == old(self).lines().drop_last().push(old(self).lines().last().push(m)),
            final(self).file_text() == old(self).file_text(),
            final(self).source_texts() == old(self).source_texts(),
    {
        let last = self.mappings.len() - 1;
        let mut line: Vec<Mapping> = Vec::new();
        std::mem::swap(&mut line, &mut self.mappings[last]);
        line.push(m);
        self.mappings.set(last, line);
        assert(self.lines() =~= old(self).lines().drop_last().push(old(self).lines().last().push(m)));
    }

    /// The source map as JSON.
    pub fn to_json(&self) -> (s: String)
        requires
            self.wf(),
        ensures
            s@ == map_json(self.file_text(), self.source_texts(), self.lines()),
    {
        let ghost srcs = self.sources@.map_values(|x: String| x@);
        let mut out = string_of("{\"version\":3,\"file\":");
        let fd = str_debug(self.file.as_str());
        push_str(&mut out, fd.as_str());
        push_str(&mut out, ",\"sources\":[");
        let ghost head = out@;
        let mut i: usize = 0;
        while i < self.sources.len()
            invariant
                i <= self.sources@.len(),
                srcs == self.sources@.map_values(|x: String| x@),
                out@ == head + sources_json(srcs.subrange(0, i as int)),
            decreases self.sources.len() - i,
        {
            if i > 0 {
                push_str(&mut out, ",");
            }
            let d = str_debug(self.sources[i].as_str());
            push_str(&mut out, d.as_str());
            proof {
                let sub = srcs.subrange(0, i + 1);
                assert(sub.drop_last() =~= srcs.subrange(0, i as int));
                if i == 0 {
                    assert(srcs.subrange(0, 0) =~= Seq::<Seq<char>>::empty());
                }
            }
            i = i + 1;
        }
        assert(srcs.subrange(0, i as int) =~= srcs);
        push_str(&mut out, "],\"mappings\":");
        let mappings = self.encode_mappings();
        let md = str_debug(mappings.as_str());
        push_str(&mut out, md.as_str());
        push_str(&mut out, "}");
        out
    }

    /// The `mappings` field of the lines gathered so far.
    fn encode_mappings(&self) -> (s: String)
        requires
            self.wf(),
        ensures
            s@ == mappings_text(self.lines()),
    {
        let ghost ls = self.lines();
        let mut out = String::new();
        let mut pf: i64 = 0;
        let mut pl: i64 = 0;
        let mut pc: i64 = 0;
        let mut pn: i64 = 0;
        let mut i: usize = 0;
        while i < self.mappings.len()
            invariant
                ls == self.lines(),
                i <= ls.len(),
                out@ == lines_encoding(ls.subrange(0, i as int), (0, 0, 0, 0)).0,
                (pf as int, pl as int, pc as int, pn as int) == lines_encoding(ls.subrange(0, i as int), (0, 0, 0, 0)).1,
                0 <= pf <= u32::MAX && 0 <= pl <= u32::MAX && 0 <= pc <= u32::MAX && 0 <= pn <= u32::MAX,
            decreases self.mappings.len() - i,
        {
            let ghost before = out@;
            let ghost st0: VlqState = (pf as int, pl as int, pc as int, pn as int);
            proof {
                assert(ls.subrange(0, i + 1).drop_last() =~= ls.subrange(0, i as int));
                assert(ls.subrange(0, i + 1).last() == ls[i as int]);
            }
            if i > 0 {
                push_str(&mut out, ";");
            }
            let ghost head = out@;
            let line = &self.mappings[i];
            let ghost ms = line@;
            assert(ms == ls[i as int]);
            let mut prev_col: i64 = 0;
            let mut j: usize = 0;
            while j < line.len()
                invariant
                    ms == line@,
                    j <= ms.len(),
                    out@ == head + line_encoding(ms.subrange(0, j as int), st0).0,
                    (pf as int, pl as int, pc as int, pn as int) == line_encoding(ms.subrange(0, j as int), st0).1,
                    0 <= pf <= u32::MAX && 0 <= pl <= u32::MAX && 0 <= pc <= u32::MAX && 0 <= pn <= u32::MAX,
                    prev_col == (if j > 0 { ms[j - 1].gen_col as int } else { 0 }),
                decreases line.len() - j,
            {
                let ghost sub = ms.subrange(0, j + 1);
                proof {
                    assert(sub.drop_last() =~= ms.subrange(0, j as int));
                    assert(sub.last() == ms[j as int]);
                    if j > 0 {
                        assert(sub[sub.len() - 2] == ms[j - 1]);
                    }
                }
                let ghost st: VlqState = (pf as int, pl as int, pc as int, pn as int);
                let ghost mark = out@;
                let m = &line[j];
                if j > 0 {
                    push_str(&mut out, ",");
                }
                let col = m.gen_col as i64;
                let d = encode_vlq(col - prev_col);
                push_str(&mut out, d.as_str());
                match (m.src_file, m.src_line, m.src_col) {
                    (Some(f), Some(l), Some(c)) => {
                        let df = encode_vlq(f as i64 - pf);
                        push_str(&mut out, df.as_str());
                        let dl = encode_vlq(l as i64 - pl);
                        push_str(&mut out, dl.as_str());
                        let dc = encode_vlq(c as i64 - pc);
                        push_str(&mut out, dc.as_str());
                        pf = f as i64;
                        pl = l as i64;
                        pc = c as i64;
                        match m.name {
                            Some(n) => {
                                let dn = encode_vlq(n as i64 - pn);
                                push_str(&mut out, dn.as_str());
                                pn = n as i64;
                            },
                            None => {},
                        }
                    },
                    _ => {},
                }
                proof {
                    assert(out@ =~= mark + (if j > 0 { ","@ } else { seq![] }) + segment_text(*m, prev_col as int, st));
                }
                prev_col = col;
                j = j + 1;
            }
            proof {
                assert(ms.subrange(0, j as int) =~= ms);
                if i == 0 {
                    assert(ls.subrange(0, 0) =~= Seq::<Seq<Mapping>>::empty());
                }
            }
            i = i + 1;
        }
        assert(ls.subrange(0, i as int) =~= ls);
        out
    }
}

/// The base64 digit for `d` (0..64).
pub open spec fn b64(d: int) -> char {
    if d < 26 {
        (65 + d) as char
    } else if d < 52 {
        (97 + d - 26) as char
    } else if d < 62 {
        (48 + d - 52) as char
    } else if d == 62 {
        '+'
    } else {
        '/'
    }
}

/// Base64 VLQ digits of `n`, least significant group first; every digit
/// but the last carries the continuation bit.
pub open spec fn vlq_digits(n: nat) -> Seq<char>
    decreases n,
{
    if n / 32 > 0 {
        seq![b64((n % 32 + 32) as int)] + vlq_digits(n / 32)
    } else {
        seq![b64(n as int)]
    }
}

/// The VLQ encoding of `v`: the sign moved into the lowest bit.
pub open spec fn vlq(v: int) -> Seq<char> {
    vlq_digits(if v < 0 { (2 * -v + 1) as nat } else { (2 * v) as nat })
}

fn b64_char(d: u64) -> (c: char)
    requires
        d < 64,
    ensures
        c == b64(d as int),
{
    if d < 26 {
        ((65 + d) as u8) as char
    } else if d < 52 {
        ((97 + d - 26) as u8) as char
    } else if d < 62 {
        ((48 + d - 52) as u8) as char
    } else if d == 62 {
        '+'
    } else {
        '/'
    }
}

/// Base64 VLQ encoding of one value.  Beyond ±2^62 the doubled value no
/// longer fits, so those are left out.
fn encode_vlq(value: i64) -> (s: String)
    requires
        -0x4000_0000_0000_0000 < value < 0x4000_0000_0000_0000,
    ensures
        s@ == vlq(value as int),
{
    let mut result = String::new();
    let signed: u64 = if value < 0 { ((-value) as u64) * 2 + 1 } else { (value as u64) * 2 };
    let mut v: u64 = signed;
    assert(vlq(value as int) == vlq_digits(v as nat));
    assert(result@ + vlq_digits(v as nat) =~= vlq_digits(v as nat));
    loop
        invariant_except_break
            vlq(value as int) == result@ + vlq_digits(v as nat),
        ensures
            result@ == vlq(value as int),
        decreases v,
    {
        let ghost old_v = v;
        let ghost before = result@;
        let mut digit = v % 32;
        v = v / 32;
        if v > 0 {
            digit = digit + 32;
        }
        push_char(&mut result, b64_char(digit));
        if v == 0 {
            assert(vlq_digits(old_v as nat) == seq![b64(old_v as int)]);
            assert(result@ =~= before + vlq_digits(old_v as nat));
            break;
        }
        assert(vlq_digits(old_v as nat) == seq![b64((old_v % 32 + 32) as int)] + vlq_digits(v as nat));
        assert(before + vlq_digits(old_v as nat) =~= result@ + vlq_digits(v as nat));
    }
    result
}

} // verus!
