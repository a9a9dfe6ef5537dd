//! A IR module: callables and named constants.

use vstd::prelude::*;
use crate::common::{Context, Sym};
use crate::common::text::string_of;
use super::callable::{IrCallable, IrCallableId};
use super::inst::IrConstId;
use super::builder::IrFunctionBuilder;

verus! {

/// The callables and constants of a module, in the order they were defined. Callables and
/// constants take their ids from one counter.
pub struct IrModule<'a> {
    pub ctx: Context<'a>,
    name: String,
    callables: Vec<(IrCallableId, IrCallable)>,
    next_callable_id: usize,
    constants: Vec<(IrConstId, IrCallable)>,
    constant_names: Vec<(Sym, IrConstId)>,
    next_const_id: usize,
}

fn name_taken(names: &Vec<(Sym, IrConstId)>, name: Sym) -> (r: bool)
    ensures
        r == exists|i: int| 0 <= i < names@.len() && (#[trigger] names@[i]).0 == name,
{
    let mut i: usize = 0;
    while i < names.len()
        invariant
            i <= names@.len(),
            forall|j: int| 0 <= j < i ==> (#[trigger] names@[j]).0 != name,
        decreases names.len() - i,
    {
        if names[i].0 == name {
            return true;
        }
        i += 1;
    }
    false
}

impl<'a> IrModule<'a> {
    pub closed spec fn context(&self) -> Context<'a> {
        self.ctx
    }

    pub closed spec fn name(&self) -> Seq<char> {
        self.name@
    }

    pub closed spec fn callables(&self) -> Seq<(IrCallableId, IrCallable)> {
        self.callables@
    }

    pub closed spec fn constants(&self) -> Seq<(IrConstId, IrCallable)> {
        self.constants@
    }

    pub closed spec fn constant_names(&self) -> Seq<(Sym, IrConstId)> {
        self.constant_names@
    }

    /// The id that the next callable or constant gets.
    pub closed spec fn next_id(&self) -> usize {
        self.next_const_id
    }

    /// Whether a constant is named `name`.
    pub open spec fn has_name(&self, name: Sym) -> bool {
        exists|i: int| 0 <= i < self.constant_names().len() && (#[trigger] self.constant_names()[i]).0 == name
    }

    /// An empty module called `name`.
    pub fn new(name: &str, ctx: Context<'a>) -> (r: IrModule<'a>)
        ensures
            r.name() == name@,
            r.context() == ctx,
            r.callables().len() == 0,
            r.constants().len() == 0,
            r.constant_names().len() == 0,
            r.next_id() == 0,
    {
        IrModule {
            ctx,
            name: string_of(name),
            callables: Vec::new(),
            next_callable_id: 0,
            constants: Vec::new(),
            constant_names: Vec::new(),
            next_const_id: 0,
        }
    }

    /// Adds the function built by `fb` under the next id and returns that id.
    pub fn define_callable(&mut self, fb: IrFunctionBuilder) -> (id: IrCallableId)
        requires
            old(self).next_id() < usize::MAX,
        ensures
            id == IrCallableId(old(self).next_id()),
            final(self).next_id() == old(self).next_id() + 1,
            final(self).callables() == old(self).callables().push((id, IrCallable { sig: fb.sig, blocks: fb.blocks })),
            final(self).constants() == old(self).constants(),
            final(self).constant_names() == old(self).constant_names(),
            final(self).name() == old(self).name(),
            final(self).context() == old(self).context(),
    {
        let id = IrCallableId(self.next_const_id);
        self.next_const_id += 1;
        self.callables.push((id, IrCallable { sig: fb.sig, blocks: fb.blocks }));
        id
    }

    /// Adds the constant `c` under the next id. When no constant is named `name` yet, the
    /// constant gets that name and its id is returned; otherwise it stays unnamed and the
    /// result is `None`.
    pub fn define_constant(&mut self, name: Sym, c: IrCallable) -> (r: Option<IrConstId>)
        requires
            old(self).next_id() < usize::MAX,
        ensures
            final(self).next_id() == old(self).next_id() + 1,
            final(self).constants() == old(self).constants().push((IrConstId(old(self).next_id()), c)),
            old(self).has_name(name) ==> r is None && final(self).constant_names() == old(self).constant_names(),
            !old(self).has_name(name) ==> r == Some(IrConstId(old(self).next_id()))
                && final(self).constant_names() == old(self).constant_names().push((name, IrConstId(old(self).next_id()))),
            final(self).callables() == old(self).callables(),
            final(self).name() == old(self).name(),
            final(self).context() == old(self).context(),
    {
        let taken = name_taken(&self.constant_names, name);
        let id = IrConstId(self.next_const_id);
        self.next_const_id += 1;
        self.constants.push((id, c));
        if taken {
            return None;
        }
        self.constant_names.push((name, id));
        Some(id)
    }
}

/// The index of the first name given to constant `id`, if any.
pub open spec fn name_index(names: Seq<(Sym, IrConstId)>, id: IrConstId) -> Option<int>
    decreases names.len(),
{
    if names.len() == 0 {
        None
    } else if names[0].1 == id {
        Some(0)
    } else {
        match name_index(names.drop_first(), id) {
            Some(i) => Some(i + 1),
            None => None,
        }
    }
}

/// The callables, each on a line of its own behind its id.
pub open spec fn callables_text(s: Seq<(IrCallableId, IrCallable)>, strs: Seq<Seq<char>>) -> Seq<char>
    decreases s.len(),
{
    if s.len() == 0 {
        Seq::empty()
    } else {
        callables_text(s.drop_last(), strs) + "\n        ("@ + s.last().0.text() + " "@ + s.last().1.text(strs, 2) + ")"@
    }
}

/// The constants, each on a line of its own behind its name.
pub open spec fn constants_text(s: Seq<(IrConstId, IrCallable)>, names: Seq<(Sym, IrConstId)>, strs: Seq<Seq<char>>)
    -> Seq<char>
    decreases s.len(),
{
    if s.len() == 0 {
        Seq::empty()
    } else {
        let name = names[name_index(names, s.last().0)->Some_0].0;
        constants_text(s.drop_last(), names, strs) + "\n        ("@ + strs[name.0 as int] + " "@
            + s.last().1.text(strs, 2) + ")"@
    }
}

fn find_name(names: &Vec<(Sym, IrConstId)>, id: IrConstId) -> (r: Option<Sym>)
    ensures
        match name_index(names@, id) {
            Some(i) => 0 <= i < names@.len() && r == Some(names@[i].0),
            None => r is None,
        },
{
    let mut i: usize = 0;
    assert(names@.subrange(0, names@.len() as int) =~= names@);
    while i < names.len()
        invariant
            i <= names@.len(),
            name_index(names@, id) == match name_index(names@.subrange(i as int, names@.len() as int), id) {
                Some(j) => Some(j + i),
                None => None,
            },
        decreases names.len() - i,
    {
        let ghost rest = names@.subrange(i as int, names@.len() as int);
        assert(rest[0] == names@[i as int]);
        assert(rest.drop_first() =~= names@.subrange(i + 1, names@.len() as int));
        if names[i].1 == id {
            return Some(names[i].0);
        }
        i += 1;
    }
    None
}

impl<'a> IrModule<'a> {
    /// Whether the module can be written out: every callable and constant can, every constant
    /// has a name, and every name names a string of the interner.
    pub open spec fn printable(&self) -> bool {
        let strs = self.context().interner@;
        &&& self.context().interner.wf()
        &&& forall|i: int| 0 <= i < self.callables().len() ==> (#[trigger] self.callables()[i]).1.printable(strs, 2)
        &&& forall|i: int| 0 <= i < self.constants().len() ==> {
            &&& (#[trigger] self.constants()[i]).1.printable(strs, 2)
            &&& name_index(self.constant_names(), self.constants()[i].0) is Some
        }
        &&& forall|i: int| 0 <= i < self.constant_names().len() ==> (#[trigger] self.constant_names()[i]).0.0 < strs.len()
    }

    pub open spec fn text(&self) -> Seq<char> {
        let strs = self.context().interner@;
        "(module "@ + self.name() + "\n    (callables"@ + callables_text(self.callables(), strs)
            + ")\n    (constants"@ + constants_text(self.constants(), self.constant_names(), strs) + "))"@
    }

    /// The module as the IR text writes it.
    pub fn fmt(&self) -> (r: String)
        requires
            self.printable(),
        ensures
            r@ == self.text(),
    {
        let interner = self.ctx.interner;
        let mut f = string_of("(module ");
        f.append(self.name.as_str());
        f.append("\n    (callables");
        let ghost head = f@;
        let mut k: usize = 0;
        assert(f@ =~= head + callables_text(self.callables@.subrange(0, 0), interner@));
        while k < self.callables.len()
            invariant
                k <= self.callables@.len(),
                self.printable(),
                interner == self.ctx.interner,
                f@ == head + callables_text(self.callables@.subrange(0, k as int), interner@),
            decreases self.callables.len() - k,
        {
            assert(self.callables()[k as int].1.printable(interner@, 2));
            let id = &self.callables[k].0;
            let c = &self.callables[k].1;
            f.append("\n        (");
            f.append(id.fmt().as_str());
            f.append(" ");
            f.append(c.fmt(interner, 2).as_str());
            f.append(")");
            proof {
                let pre = self.callables@.subrange(0, k + 1);
                assert(pre.drop_last() =~= self.callables@.subrange(0, k as int));
                assert(pre.last() == self.callables@[k as int]);
                assert(f@ =~= head + callables_text(pre, interner@));
            }
            k += 1;
        }
        assert(self.callables@.subrange(0, self.callables@.len() as int) =~= self.callables@);
        f.append(")\n    (constants");
        let ghost head2 = f@;
        let mut k: usize = 0;
        assert(f@ =~= head2 + constants_text(self.constants@.subrange(0, 0), self.constant_names@, interner@));
        while k < self.constants.len()
            invariant
                k <= self.constants@.len(),
                self.printable(),
                interner == self.ctx.interner,
                f@ == head2 + constants_text(self.constants@.subrange(0, k as int), self.constant_names@, interner@),
            decreases self.constants.len() - k,
        {
            assert(self.constants()[k as int].1.printable(interner@, 2));
            assert(name_index(self.constant_names(), self.constants()[k as int].0) is Some);
            let id = self.constants[k].0;
            let c = &self.constants[k].1;
            let name = find_name(&self.constant_names, id).unwrap();
            f.append("\n        (");
            f.append(interner.resolve(name));
            f.append(" ");
            f.append(c.fmt(interner, 2).as_str());
            f.append(")");
            proof {
                let pre = self.constants@.subrange(0, k + 1);
                assert(pre.drop_last() =~= self.constants@.subrange(0, k as int));
                assert(pre.last() == self.constants@[k as int]);
                assert(f@ =~= head2 + constants_text(pre, self.constant_names@, interner@));
            }
            k += 1;
        }
        assert(self.constants@.subrange(0, self.constants@.len() as int) =~= self.constants@);
        f.append("))");
        f
    }
}

} // verus!
