use vstd::prelude::*;
use crate::text::str_eq;

verus! {

/// The mathematical content of a label: a name bound to the program
/// address the next emitted instruction will occupy.
pub struct LabelSnap {
    pub name: Seq<char>,
    pub position: usize,
}

/// A symbolic name bound to a program address, recorded while loading.
pub struct Label {
    pub name: String,
    pub position: usize,
}

impl View for Label {
    type V = LabelSnap;

    open spec fn view(&self) -> LabelSnap {
        LabelSnap { name: self.name@, position: self.position }
    }
}

impl Label {
    pub fn new(name: String, position: usize) -> (r: Self)
        ensures
            r@.name == name@,
            r@.position == position,
    {
        Self { name, position }
    }
}

/// The address bound to a name: a linear scan returning the first label
/// whose name matches, so under duplicate names the earliest declaration
/// wins.
pub open spec fn find_label(labels: Seq<LabelSnap>, name: Seq<char>) -> Option<usize>
    decreases labels.len(),
{
    if labels.len() == 0 {
        None
    } else if labels[0].name == name {
        Some(labels[0].position)
    } else {
        find_label(labels.drop_first(), name)
    }
}

/// The table of labels declared so far, in declaration order. Names are
/// not required to be unique; `find` returns the first match.
pub struct LabelTable {
    pub labels: Vec<Label>,
}

impl View for LabelTable {
    type V = Seq<LabelSnap>;

    open spec fn view(&self) -> Seq<LabelSnap> {
        self.labels@.map_values(|l: Label| l@)
    }
}

impl LabelTable {
    pub fn new() -> (r: Self)
        ensures
            r@ == Seq::<LabelSnap>::empty(),
    {
        let r = Self { labels: Vec::new() };
        proof {
            assert(r@ =~= Seq::<LabelSnap>::empty());
        }
        r
    }

    pub fn find(&self, label_name: &str) -> (r: Option<usize>)
        ensures
            r == find_label(self@, label_name@),
    {
        let n = self.labels.len();
        let mut i: usize = 0;
        proof {
            assert(self@.skip(0) =~= self@);
        }
        while i < n
            invariant
                i <= n,
                n == self.labels.len(),
                self@.len() == n,
                find_label(self@, label_name@) == find_label(self@.skip(i as int), label_name@),
            decreases n - i,
        {
            let l = &self.labels[i];
            if str_eq(l.name.as_str(), label_name) {
                proof {
                    assert(self@.skip(i as int)[0] == self@[i as int]);
                    reveal_with_fuel(find_label, 2);
                }
                return Some(l.position);
            }
            proof {
                assert(self@.skip(i as int)[0] == self@[i as int]);
                assert(self@.skip(i as int).drop_first() =~= self@.skip(i + 1));
                reveal_with_fuel(find_label, 2);
            }
            i += 1;
        }
        proof {
            assert(self@.skip(i as int) =~= Seq::<LabelSnap>::empty());
        }
        None
    }

    pub fn push(&mut self, label: Label)
        ensures
            final(self)@ == old(self)@.push(label@),
    {
        self.labels.push(label);
        proof {
            assert(self@ =~= old(self)@.push(label@));
        }
    }
}

} // verus!
