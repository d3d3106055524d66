//! The configuration tree.

use vstd::prelude::*;

verus! {

/// The mathematical model of a [`ConfigBlock`]: a name, the parameters in
/// source order and the child blocks in source order.
pub struct BlockView {
    pub name: Seq<char>,
    pub params: Seq<Seq<char>>,
    pub inner: Seq<BlockView>,
}

/// A block of the configuration, or the document root. The root has the
/// empty name and no parameters.
#[derive(Debug, PartialEq, Eq)]
pub struct ConfigBlock {
    name: String,
    params: Vec<String>,
    inner: Vec<ConfigBlock>,
}

impl View for ConfigBlock {
    type V = BlockView;

    closed spec fn view(&self) -> BlockView {
        self.model()
    }
}

/// The texts of the strings of `v`, in order.
pub open spec fn strings_view(v: Seq<String>) -> Seq<Seq<char>> {
    v.map_values(|s: String| s@)
}

/// The models of the blocks of `v`, in order.
pub open spec fn blocks_view(v: Seq<ConfigBlock>) -> Seq<BlockView> {
    v.map_values(|b: ConfigBlock| b@)
}

/// The texts of the strings of `v` are as many as the strings, and each is
/// the text of the string in its place: a block has the parameters that it
/// was made with.
pub proof fn lemma_strings_view(v: Seq<String>)
    ensures
        strings_view(v).len() == v.len(),
        forall|i: int| 0 <= i < v.len() ==> strings_view(v)[i] == v[i]@,
{
}

/// The predicate "is named `name`".
pub open spec fn named(name: Seq<char>) -> spec_fn(BlockView) -> bool {
    |b: BlockView| b.name == name
}

impl ConfigBlock {
    spec fn model(&self) -> BlockView
        decreases self,
    {
        BlockView {
            name: self.name@,
            params: strings_view(self.params@),
            inner: Seq::new(
                self.inner@.len(),
                |i: int|
                    if 0 <= i < self.inner@.len() {
                        self.inner@[i].model()
                    } else {
                        arbitrary()
                    },
            ),
        }
    }

    proof fn lemma_view(&self)
        ensures
            self@ == (BlockView {
                name: self.name@,
                params: strings_view(self.params@),
                inner: blocks_view(self.inner@),
            }),
    {
        assert(self@.inner =~= blocks_view(self.inner@));
    }

    /// A block with the given name, parameters and children.
    pub fn new(name: String, params: Vec<String>, inner: Vec<ConfigBlock>) -> (r: ConfigBlock)
        ensures
            r@ == (BlockView {
                name: name@,
                params: strings_view(params@),
                inner: blocks_view(inner@),
            }),
    {
        let r = ConfigBlock { name: name, params: params, inner: inner };
        proof {
            r.lemma_view();
        }
        r
    }

    /// Appends `block` as the last child.
    pub fn add_block(&mut self, block: ConfigBlock)
        ensures
            final(self)@ == (BlockView { inner: old(self)@.inner.push(block@), ..old(self)@ }),
    {
        proof {
            self.lemma_view();
        }
        self.inner.push(block);
        proof {
            self.lemma_view();
            assert(blocks_view(self.inner@) =~= blocks_view(old(self).inner@).push(block@));
        }
    }

    /// The children named `name`, in source order. Only direct children are
    /// looked at.
    pub fn matching<'a>(&'a self, name: &'a str) -> (r: ConfigIter<'a>)
        ensures
            r@ == self@.inner.filter(named(name@)),
    {
        proof {
            self.lemma_view();
            assert(blocks_view(self.inner@).skip(0) =~= blocks_view(self.inner@));
        }
        ConfigIter { blocks: &self.inner, pos: 0, name: name.to_owned() }
    }

    /// The name of the block.
    pub fn name(&self) -> (r: &str)
        ensures
            r@ == self@.name,
    {
        self.name.as_str()
    }

    /// The children, in source order.
    pub fn inner<'a>(&'a self) -> (r: &'a Vec<ConfigBlock>)
        ensures
            blocks_view(r@) == self@.inner,
    {
        proof {
            self.lemma_view();
        }
        &self.inner
    }

    /// The number of parameters.
    pub fn len(&self) -> (r: usize)
        ensures
            r == self@.params.len(),
    {
        self.params.len()
    }

    /// The parameter at index `i`, which must exist.
    pub fn get(&self, i: usize) -> (r: &str)
        requires
            i < self@.params.len(),
        ensures
            r@ == self@.params[i as int],
    {
        self.params[i].as_str()
    }

    /// The parameter at index `i`, or `None` where there is none.
    pub fn get_opt(&self, i: usize) -> (r: Option<&str>)
        ensures
            i < self@.params.len() ==> (r matches Some(s) && s@ == self@.params[i as int]),
            i >= self@.params.len() ==> r is None,
    {
        if i < self.params.len() {
            Some(self.params[i].as_str())
        } else {
            None
        }
    }
}

/// Whether `idx` lists, in ascending order, the indices of exactly those
/// blocks of `blocks` that are named `name`.
pub open spec fn selects(idx: Seq<int>, blocks: Seq<BlockView>, name: Seq<char>) -> bool {
    &&& forall|k: int|
        0 <= k < idx.len() ==> 0 <= #[trigger] idx[k] < blocks.len() && blocks[idx[k]].name
            == name
    &&& forall|k: int, l: int| 0 <= k < l < idx.len() ==> #[trigger] idx[k] < #[trigger] idx[l]
    &&& forall|i: int|
        0 <= i < blocks.len() && (#[trigger] blocks[i]).name == name ==> idx.contains(i)
}

/// What `matching` yields are exactly the blocks named `name`, each once and
/// in the order in which they stand in `blocks`: the lemma returns the
/// indices at which they stand.
pub proof fn lemma_matching_selects(blocks: Seq<BlockView>, name: Seq<char>) -> (idx: Seq<int>)
    ensures
        selects(idx, blocks, name),
        blocks.filter(named(name)).len() == idx.len(),
        forall|k: int|
            0 <= k < idx.len() ==> blocks.filter(named(name))[k] == blocks[#[trigger] idx[k]],
    decreases blocks.len(),
{
    reveal(Seq::filter);
    if blocks.len() == 0 {
        Seq::empty()
    } else {
        let front = blocks.drop_last();
        let before = lemma_matching_selects(front, name);
        let last = blocks.len() - 1;
        if blocks.last().name == name {
            let idx = before.push(last);
            assert(idx[before.len() as int] == last);
            assert forall|i: int|
                0 <= i < blocks.len() && (#[trigger] blocks[i]).name == name implies idx.contains(
                i,
            ) by {
                if i < last {
                    assert(front[i].name == name);
                    let k = choose|k: int| 0 <= k < before.len() && before[k] == i;
                    assert(idx[k] == i);
                } else {
                    assert(idx[before.len() as int] == i);
                }
            }
            idx
        } else {
            assert forall|i: int|
                0 <= i < blocks.len() && (#[trigger] blocks[i]).name == name implies before.contains(
                i,
            ) by {
                assert(front[i].name == name);
            }
            before
        }
    }
}

/// A walk over those children of a block that have a given name.
pub struct ConfigIter<'a> {
    blocks: &'a Vec<ConfigBlock>,
    pos: usize,
    name: String,
}

impl<'a> View for ConfigIter<'a> {
    type V = Seq<BlockView>;

    /// The blocks that the walk has yet to yield, in order.
    closed spec fn view(&self) -> Seq<BlockView> {
        if self.pos <= self.blocks@.len() {
            blocks_view(self.blocks@).skip(self.pos as int).filter(named(self.name@))
        } else {
            Seq::empty()
        }
    }
}

impl<'a> ConfigIter<'a> {
    /// Yields the next block of the walk, or `None` at its end.
    pub fn next(&mut self) -> (r: Option<&'a ConfigBlock>)
        ensures
            old(self)@.len() == 0 ==> r is None && final(self)@ == old(self)@,
            old(self)@.len() > 0 ==> (r matches Some(b) && b@ == old(self)@[0] && final(self)@
                == old(self)@.skip(1)),
    {
        let ghost all = blocks_view(self.blocks@);
        let ghost pred = named(self.name@);
        loop
            invariant
                self.blocks == old(self).blocks,
                self.name == old(self).name,
                all == blocks_view(self.blocks@),
                pred == named(self.name@),
                self@ == old(self)@,
            decreases self.blocks@.len() - self.pos,
        {
            if self.pos >= self.blocks.len() {
                proof {
                    reveal(Seq::filter);
                }
                return None;
            }
            let b = &self.blocks[self.pos];
            proof {
                let rest = all.skip(self.pos as int + 1);
                assert(all.skip(self.pos as int) =~= seq![b@] + rest);
                rest.lemma_filter_prepend(b@, pred);
                if pred(b@) {
                    assert((seq![b@] + rest.filter(pred)).skip(1) =~= rest.filter(pred));
                } else {
                    assert(Seq::<BlockView>::empty() + rest.filter(pred) =~= rest.filter(pred));
                }
            }
            self.pos = self.pos + 1;
            if b.name == self.name {
                return Some(b);
            }
        }
    }
}

} // verus!
