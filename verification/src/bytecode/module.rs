//! The in-memory bytecode module: constant pool, compiled functions and the
//! module that holds them.

use vstd::prelude::*;
use crate::text::string_of;

verus! {

/// A compile-time constant referenced by index from instructions.
#[derive(Debug, Clone, PartialEq)]
pub enum ConstValue {
    Str(String),
    /// Interned struct/field name.
    Name(String),
}

/// The mathematical value of a [`ConstValue`].
pub enum ConstValueV {
    Str(Seq<char>),
    Name(Seq<char>),
}

impl View for ConstValue {
    type V = ConstValueV;

    open spec fn view(&self) -> ConstValueV {
        match self {
            ConstValue::Str(s) => ConstValueV::Str(s@),
            ConstValue::Name(s) => ConstValueV::Name(s@),
        }
    }
}

impl ConstValueV {
    /// The text of the entry, whatever its tag.
    pub open spec fn text(self) -> Seq<char> {
        match self {
            ConstValueV::Str(s) => s,
            ConstValueV::Name(s) => s,
        }
    }
}

/// `i` is the first position of `v` in `es`.
pub open spec fn is_first<A>(es: Seq<A>, v: A, i: int) -> bool {
    &&& 0 <= i < es.len()
    &&& es[i] == v
    &&& forall|j: int| 0 <= j < i ==> es[j] != v
}

/// Interning `v` into `es`: the first equal entry's index, or `v` appended
/// at the end.  Indices are 16-bit, so they wrap past 65535.
pub open spec fn intern_spec<A>(es: Seq<A>, v: A) -> (Seq<A>, u16) {
    if exists|i: int| is_first(es, v, i) {
        (es, (choose|i: int| is_first(es, v, i)) as u16)
    } else {
        (es.push(v), es.len() as u16)
    }
}

/// The constant pool (string table) of a module.
#[derive(Debug, Clone)]
pub struct ConstPool {
    pub entries: Vec<ConstValue>,
}

impl View for ConstPool {
    type V = Seq<ConstValueV>;

    open spec fn view(&self) -> Seq<ConstValueV> {
        self.entries@.map_values(|e: ConstValue| e@)
    }
}

fn same_entry(x: &ConstValue, y: &ConstValue) -> (b: bool)
    ensures
        b == (x@ == y@),
{
    match x {
        ConstValue::Str(a) => match y {
            ConstValue::Str(b) => {
                let e = *a == *b;
                proof {
                    if e {
                        assert(x@ == y@);
                    }
                }
                e
            },
            ConstValue::Name(_) => false,
        },
        ConstValue::Name(a) => match y {
            ConstValue::Name(b) => {
                let e = *a == *b;
                proof {
                    if e {
                        assert(x@ == y@);
                    }
                }
                e
            },
            ConstValue::Str(_) => false,
        },
    }
}

proof fn lemma_first_exists<A>(es: Seq<A>, v: A, j: int)
    requires
        0 <= j < es.len(),
        es[j] == v,
    ensures
        exists|i: int| is_first(es, v, i),
    decreases j,
{
    if exists|k: int| 0 <= k < j && es[k] == v {
        let k = choose|k: int| 0 <= k < j && es[k] == v;
        lemma_first_exists(es, v, k);
    } else {
        assert(is_first(es, v, j));
    }
}

proof fn lemma_first_unique<A>(es: Seq<A>, v: A, i: int, k: int)
    requires
        is_first(es, v, i),
        is_first(es, v, k),
    ensures
        i == k,
{
}

impl ConstPool {
    pub fn new() -> (p: ConstPool)
        ensures
            p@ == Seq::<ConstValueV>::empty(),
    {
        ConstPool { entries: Vec::new() }
    }

    fn intern(&mut self, v: ConstValue) -> (r: u16)
        ensures
            (final(self)@, r) == intern_spec(old(self)@, v@),
    {
        let ghost es = old(self)@;
        let mut i: usize = 0;
        while i < self.entries.len()
            invariant
                self@ == es,
                i <= es.len(),
                forall|j: int| 0 <= j < i ==> es[j] != v@,
            decreases self.entries.len() - i,
        {
            let same = same_entry(&self.entries[i], &v);
            proof {
                assert(es[i as int] == self.entries@[i as int]@);
                assert(same == (es[i as int] == v@));
            }
            if same {
                proof {
                    assert(is_first(es, v@, i as int));
                    assert forall|k: int| is_first(es, v@, k) implies k == i by {
                        lemma_first_unique(es, v@, i as int, k);
                    }
                }
                return #[verifier::truncate] (i as u16);
            }
            i = i + 1;
        }
        let idx = #[verifier::truncate] (self.entries.len() as u16);
        self.entries.push(v);
        proof {
            assert(self@ =~= es.push(v@));
        }
        idx
    }

    /// Interns a string, returning its index.  Deduplicates.
    pub fn intern_str(&mut self, s: &str) -> (r: u16)
        ensures
            (final(self)@, r) == intern_spec(old(self)@, ConstValueV::Str(s@)),
    {
        self.intern(ConstValue::Str(string_of(s)))
    }

    /// Interns a struct or field name, returning its index.  Deduplicates.
    pub fn intern_name(&mut self, s: &str) -> (r: u16)
        ensures
            (final(self)@, r) == intern_spec(old(self)@, ConstValueV::Name(s@)),
    {
        self.intern(ConstValue::Name(string_of(s)))
    }

    pub fn get(&self, idx: u16) -> (r: Option<&ConstValue>)
        ensures
            match r {
                Some(e) => idx < self@.len() && e@ == self@[idx as int],
                None => idx >= self@.len(),
            },
    {
        if (idx as usize) < self.entries.len() {
            Some(&self.entries[idx as usize])
        } else {
            None
        }
    }
}

/// Interning the same value again returns the same index and leaves the
/// pool as it was.
pub proof fn lemma_intern_idempotent<A>(es: Seq<A>, v: A)
    ensures
        intern_spec(intern_spec(es, v).0, v) == intern_spec(es, v),
{
    if exists|i: int| is_first(es, v, i) {
    } else {
        let es1 = es.push(v);
        assert forall|j: int| 0 <= j < es.len() implies es1[j] != v by {
            if es1[j] == v {
                lemma_first_exists(es, v, j);
            }
        }
        assert(is_first(es1, v, es.len() as int));
        assert forall|k: int| is_first(es1, v, k) implies k == es.len() by {
            lemma_first_unique(es1, v, es.len() as int, k);
        }
    }
}

/// Interning keeps every earlier entry where it was, and the returned index
/// names an entry equal to the interned value (while indices fit in 16 bits).
pub proof fn lemma_intern_lookup<A>(es: Seq<A>, v: A)
    requires
        es.len() < 0x10000,
    ensures
        es.is_prefix_of(intern_spec(es, v).0),
        intern_spec(es, v).0[intern_spec(es, v).1 as int] == v,
{
    if exists|i: int| is_first(es, v, i) {
        let i = choose|i: int| is_first(es, v, i);
        assert(es =~= es.subrange(0, es.len() as int));
    } else {
        assert(es =~= es.push(v).subrange(0, es.len() as int));
    }
}

/// A compiled function.
#[derive(Debug, Clone)]
pub struct BcFn {
    /// Name index in the constant pool.
    pub name_idx: u16,
    /// Number of parameters (the first `param_count` locals).
    pub param_count: u8,
    /// Total locals, parameters and temporaries included.
    pub local_count: u16,
    /// Linear bytecode stream.
    pub code: Vec<u8>,
    /// Callable from JS.
    pub is_export: bool,
    pub is_async: bool,
}

/// The mathematical value of a [`BcFn`].
pub struct BcFnV {
    pub name_idx: u16,
    pub param_count: u8,
    pub local_count: u16,
    pub code: Seq<u8>,
    pub is_export: bool,
    pub is_async: bool,
}

impl View for BcFn {
    type V = BcFnV;

    open spec fn view(&self) -> BcFnV {
        BcFnV {
            name_idx: self.name_idx,
            param_count: self.param_count,
            local_count: self.local_count,
            code: self.code@,
            is_export: self.is_export,
            is_async: self.is_async,
        }
    }
}

/// Magic bytes that start every bytecode file: `SELVR\x01`.
pub const MAGIC: [u8; 6] = [0x53u8, 0x45u8, 0x4Cu8, 0x56u8, 0x52u8, 0x01u8];

/// Format version (major, minor).
pub const VERSION: (u8, u8) = (0u8, 1u8);

/// A compiled module, ready for the VM or for binary encoding.
#[derive(Debug, Clone)]
pub struct BytecodeModule {
    pub const_pool: ConstPool,
    pub fns: Vec<BcFn>,
    /// Source file name (for stack traces).
    pub source: String,
    /// Content hash of the source, for incremental caching.
    pub src_hash: [u8; 32],
}

/// The mathematical value of a [`BytecodeModule`].
pub struct BytecodeModuleV {
    pub pool: Seq<ConstValueV>,
    pub fns: Seq<BcFnV>,
    pub source: Seq<char>,
    pub src_hash: Seq<u8>,
}

impl View for BytecodeModule {
    type V = BytecodeModuleV;

    open spec fn view(&self) -> BytecodeModuleV {
        BytecodeModuleV {
            pool: self.const_pool@,
            fns: self.fns@.map_values(|f: BcFn| f@),
            source: self.source@,
            src_hash: self.src_hash@,
        }
    }
}

/// The name a function record refers to in `pool`, if its index is valid.
pub open spec fn fn_name(pool: Seq<ConstValueV>, f: BcFnV) -> Option<Seq<char>> {
    if (f.name_idx as int) < pool.len() {
        Some(pool[f.name_idx as int].text())
    } else {
        None
    }
}

impl BytecodeModule {
    pub fn new(source: &str) -> (m: BytecodeModule)
        ensures
            m.const_pool@ == Seq::<ConstValueV>::empty(),
            m.fns@.len() == 0,
            m.source@ == source@,
            forall|i: int| 0 <= i < 32 ==> m.src_hash@[i] == 0u8,
    {
        BytecodeModule {
            const_pool: ConstPool::new(),
            fns: Vec::new(),
            source: string_of(source),
            src_hash: [0u8; 32],
        }
    }

    /// The first function whose pool name is `name`.
    pub fn find_fn(&self, name: &str) -> (r: Option<&BcFn>)
        ensures
            match r {
                Some(f) => exists|i: int|
                    0 <= i < self.fns@.len() && self.fns@[i] == *f
                        && fn_name(self.const_pool@, f@) == Some(name@)
                        && forall|j: int| 0 <= j < i
                            ==> fn_name(self.const_pool@, #[trigger] self.fns@[j]@) != Some(name@),
                None => forall|j: int| 0 <= j < self.fns@.len()
                    ==> fn_name(self.const_pool@, #[trigger] self.fns@[j]@) != Some(name@),
            },
    {
        let target = string_of(name);
        let mut i: usize = 0;
        while i < self.fns.len()
            invariant
                i <= self.fns@.len(),
                target@ == name@,
                forall|j: int| 0 <= j < i
                    ==> fn_name(self.const_pool@, #[trigger] self.fns@[j]@) != Some(name@),
            decreases self.fns.len() - i,
        {
            let f = &self.fns[i];
            let hit = match self.const_pool.get(f.name_idx) {
                Some(ConstValue::Str(s)) => *s == target,
                Some(ConstValue::Name(s)) => *s == target,
                None => false,
            };
            if hit {
                return Some(f);
            }
            i = i + 1;
        }
        None
    }
}

} // verus!
