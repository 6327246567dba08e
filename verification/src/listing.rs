//! Indented listings of a tree, as text.
//!
//! A listing has one line per node. A line starts with a line break, then
//! the margin (one bar for each level below the node the listing starts
//! from), the index of the slot that the node sits in, and the word
//! `NtreeNode`; the labelled form adds the payload in parentheses. The lines
//! of a node's children follow the node's own line, in slot order.
use crate::ntree::Ntree;
use crate::ntree_node::NtreeNode;
use crate::ntree_node::NtreeNodeInterface;
use crate::tree::Tree;
use std::fmt::Write;
use vstd::prelude::*;
use vstd::string::*;

verus! {

/// The character for a single decimal digit.
pub open spec fn digit(d: nat) -> char {
    if d == 0 {
        '0'
    } else if d == 1 {
        '1'
    } else if d == 2 {
        '2'
    } else if d == 3 {
        '3'
    } else if d == 4 {
        '4'
    } else if d == 5 {
        '5'
    } else if d == 6 {
        '6'
    } else if d == 7 {
        '7'
    } else if d == 8 {
        '8'
    } else {
        '9'
    }
}

/// A number in decimal, without sign or leading zeros.
pub open spec fn decimal(n: nat) -> Seq<char>
    decreases n,
{
    if n < 10 {
        seq![digit(n)]
    } else {
        decimal(n / 10).push(digit(n % 10))
    }
}

/// The margin of a line `depth` levels down: `depth` times a blank and a bar.
pub open spec fn bars(depth: nat) -> Seq<char>
    decreases depth,
{
    if depth == 0 {
        Seq::empty()
    } else {
        bars((depth - 1) as nat) + seq![' ', '|']
    }
}

/// The line of a node that sits in slot `index`, under `margin`.
pub open spec fn heading(index: nat, margin: Seq<char>) -> Seq<char> {
    seq!['\n'] + margin + seq![' '] + decimal(index) + " NtreeNode"@
}

/// The line of a node with the text of its payload added in parentheses.
pub open spec fn labelled_heading(index: nat, margin: Seq<char>, label: Seq<char>) -> Seq<char> {
    heading(index, margin) + " ( "@ + label + " )"@
}

impl<T> Tree<T> {
    /// The listing of this tree as the occupant of slot `index`, with
    /// `margin` before its own line and one bar more for each level below.
    pub open spec fn listing(self, index: nat, margin: Seq<char>) -> Seq<char>
        decreases self, self.slots.len() + 1,
    {
        heading(index, margin) + self.listing_below(self.slots.len(), margin + seq![' ', '|'])
    }

    /// The listings of the occupied slots among the first `count`, one
    /// after the other in slot order.
    pub open spec fn listing_below(self, count: nat, margin: Seq<char>) -> Seq<char>
        decreases self, count,
    {
        if count == 0 || count > self.slots.len() {
            Seq::empty()
        } else {
            self.listing_below((count - 1) as nat, margin) + (match self.slots[count - 1] {
                Some(sub) => sub.listing((count - 1) as nat, margin),
                None => Seq::empty(),
            })
        }
    }
}

impl Tree<Seq<char>> {
    /// The labelled listing of a tree whose payloads are the label texts.
    pub open spec fn labelled_listing(self, index: nat, margin: Seq<char>) -> Seq<char>
        decreases self, self.slots.len() + 1,
    {
        labelled_heading(index, margin, self.data) + self.labelled_listing_below(
            self.slots.len(),
            margin + seq![' ', '|'],
        )
    }

    /// The labelled listings of the occupied slots among the first `count`,
    /// one after the other in slot order.
    pub open spec fn labelled_listing_below(self, count: nat, margin: Seq<char>) -> Seq<char>
        decreases self, count,
    {
        if count == 0 || count > self.slots.len() {
            Seq::empty()
        } else {
            self.labelled_listing_below((count - 1) as nat, margin) + (match self.slots[count
                - 1] {
                Some(sub) => sub.labelled_listing((count - 1) as nat, margin),
                None => Seq::empty(),
            })
        }
    }
}

/// The text of one decimal digit.
fn digit_text(d: usize) -> (text: &'static str)
    requires
        d < 10,
    ensures
        text@ == seq![digit(d as nat)],
{
    proof {
        reveal_strlit("0");
        reveal_strlit("1");
        reveal_strlit("2");
        reveal_strlit("3");
        reveal_strlit("4");
        reveal_strlit("5");
        reveal_strlit("6");
        reveal_strlit("7");
        reveal_strlit("8");
        reveal_strlit("9");
    }
    if d == 0 {
        "0"
    } else if d == 1 {
        "1"
    } else if d == 2 {
        "2"
    } else if d == 3 {
        "3"
    } else if d == 4 {
        "4"
    } else if d == 5 {
        "5"
    } else if d == 6 {
        "6"
    } else if d == 7 {
        "7"
    } else if d == 8 {
        "8"
    } else {
        "9"
    }
}

/// Appends `n` in decimal.
pub fn push_decimal(out: &mut String, n: usize)
    ensures
        final(out)@ == old(out)@ + decimal(n as nat),
    decreases n,
{
    if n >= 10 {
        push_decimal(out, n / 10);
    }
    out.append(digit_text(n % 10));
}

/// The margin for a line `indentation` levels down.
pub fn margin_text(indentation: u32) -> (margin: String)
    ensures
        margin@ == bars(indentation as nat),
{
    let mut margin = String::new();
    let mut level: u32 = 0;
    while level < indentation
        invariant
            level <= indentation,
            margin@ == bars(level as nat),
        decreases indentation - level,
    {
        proof {
            reveal_strlit(" |");
        }
        margin.append(" |");
        level = level + 1;
    }
    margin
}

/// The margin one level further down than `margin`.
fn deeper(margin: &String) -> (next: String)
    ensures
        next@ == margin@ + seq![' ', '|'],
{
    proof {
        reveal_strlit(" |");
    }
    let mut next = margin.clone();
    next.append(" |");
    next
}

/// Appends the line of a node that sits in slot `index`, under `margin`.
/// With a `label`, the line is the labelled one.
pub fn push_heading(out: &mut String, index: usize, margin: &str, label: Option<&str>)
    ensures
        final(out)@ == old(out)@ + (match label {
            Some(text) => labelled_heading(index as nat, margin@, text@),
            None => heading(index as nat, margin@),
        }),
{
    proof {
        reveal_strlit("\n");
        reveal_strlit(" ");
    }
    out.append("\n");
    out.append(margin);
    out.append(" ");
    push_decimal(out, index);
    out.append(" NtreeNode");
    if let Some(text) = label {
        out.append(" ( ");
        out.append(text);
        out.append(" )");
    }
}

impl<const N: usize, T> NtreeNode<N, T> {
    /// Appends the listing of this node, as the occupant of slot `index`,
    /// to `out`. The node's own line stands `indentation` levels deep and
    /// each generation below it one level deeper.
    pub fn fmt_indent(&self, index: usize, indentation: u32, out: &mut String)
        ensures
            final(out)@ == old(out)@ + self@.listing(index as nat, bars(indentation as nat)),
    {
        let margin = margin_text(indentation);
        self.list_under(index, &margin, out);
    }

    /// Appends the listing of this node under a margin that is already
    /// made up.
    fn list_under(&self, index: usize, margin: &String, out: &mut String)
        ensures
            final(out)@ == old(out)@ + self@.listing(index as nat, margin@),
        decreases self@,
    {
        proof {
            self.lemma_view_arity();
        }
        push_heading(out, index, margin.as_str(), None);
        let below = deeper(margin);
        let mut i: usize = 0;
        while i < N
            invariant
                i <= N,
                self@.slots.len() == N,
                below@ == margin@ + seq![' ', '|'],
                out@ == old(out)@ + heading(index as nat, margin@) + self@.listing_below(
                    i as nat,
                    below@,
                ),
            decreases N - i,
        {
            let ghost before = out@;
            if let Some(child) = self.peek(i) {
                child.list_under(i, &below, out);
            }
            assert(out@ == old(out)@ + heading(index as nat, margin@) + self@.listing_below(
                (i + 1) as nat,
                below@,
            )) by {
                assert(out@ == before + (match self@.slots[i as int] {
                    Some(sub) => sub.listing(i as nat, below@),
                    None => Seq::empty(),
                }));
            }
            i = i + 1;
        }
    }

    /// The listing of this node as a root: in slot 0 and with no margin.
    pub fn to_string(&self) -> (text: String)
        ensures
            text@ == self@.listing(0, Seq::empty()),
    {
        let mut text = String::new();
        self.fmt_indent(0, 0, &mut text);
        text
    }
}

impl<const N: usize, T> Ntree<N, T> {
    /// The word `[Ntree]` and after it the listing of the root.
    pub fn to_string(&self) -> (text: String)
        ensures
            text@ == "[Ntree]"@ + self@.listing(0, Seq::empty()),
    {
        let mut text = String::new();
        text.append("[Ntree]");
        self.interface().fmt_indent(0, 0, &mut text);
        text
    }
}

/// Why a labelled listing was given up.
#[derive(Clone, Copy, Debug, PartialEq, Eq, Structural)]
pub enum ListingError {
    /// The `Debug` implementation of a payload reported a failure.
    Label,
}

/// The text that `T`'s `Debug` implementation gives for `value`: what
/// `write!` with `{:?}` puts into an empty `String`. `None` stands for the
/// error that `write!` returns when the implementation reports a failure.
/// What the text is depends on the implementation, so nothing is claimed
/// of it; [`renders`] speaks of what a call gave.
#[verifier::external_body]
fn debug_text<T: std::fmt::Debug>(value: &T) -> (text: Option<String>) {
    let mut text = String::new();
    match write!(text, "{:?}", value) {
        Ok(()) => Some(text),
        Err(_) => None,
    }
}

/// `outcome` is something that rendering `value` through its `Debug`
/// implementation gave: the text, or `None` where the implementation
/// reported a failure. Nothing says that a value has one outcome only.
pub closed spec fn renders<T: std::fmt::Debug>(value: T, outcome: Option<Seq<char>>) -> bool {
    exists|text: Option<String>|
        call_ensures(debug_text::<T>, (&value,), text) && outcome == (match text {
            Some(text) => Some(text@),
            None => None,
        })
}

impl<T: std::fmt::Debug> Tree<T> {
    /// At every position that both trees have, the label is a text that
    /// rendering the payload there gave.
    pub open spec fn labelled_by(self, labels: Tree<Seq<char>>) -> bool
        decreases self,
    {
        &&& renders(self.data, Some(labels.data))
        &&& forall|i: int|
            0 <= i < self.slots.len() && i < labels.slots.len() ==> match (
                #[trigger] self.slots[i],
                labels.slots[i],
            ) {
                (Some(a), Some(b)) => a.labelled_by(b),
                _ => true,
            }
    }

    /// Somewhere in the tree stands a payload for which rendering gave a
    /// failure.
    pub open spec fn has_failed_label(self) -> bool
        decreases self,
    {
        ||| renders(self.data, None)
        ||| exists|i: int|
            0 <= i < self.slots.len() && (#[trigger] self.slots[i] matches Some(sub)
                && sub.has_failed_label())
    }
}

impl Tree<Seq<char>> {
    /// The listings of the first `count` slots depend on those slots alone.
    proof fn lemma_listing_below_of_prefix(
        self,
        other: Tree<Seq<char>>,
        count: nat,
        margin: Seq<char>,
    )
        requires
            count <= self.slots.len(),
            count <= other.slots.len(),
            forall|j: int| 0 <= j < count ==> self.slots[j] == other.slots[j],
        ensures
            self.labelled_listing_below(count, margin) == other.labelled_listing_below(
                count,
                margin,
            ),
        decreases count,
    {
        if count > 0 {
            self.lemma_listing_below_of_prefix(other, (count - 1) as nat, margin);
        }
    }
}

impl<const N: usize, T: std::fmt::Debug> NtreeNode<N, T> {
    /// Appends the labelled listing of this node, as the occupant of slot
    /// `index`, to `out`. The node's own line stands `indentation` levels
    /// deep and each generation below it one level deeper.
    ///
    /// The label of a node is what `T`'s `Debug` implementation makes of
    /// its payload. So on success the text is the labelled listing of a
    /// tree of labels that has the shape of this tree and holds, at each
    /// node, a text that rendering the payload there gave. Where the
    /// implementation fails for a payload, the listing stops there: `out`
    /// keeps what was written up to then and the failure is reported. It
    /// is reported for no other reason.
    pub fn dbg_indent(&self, index: usize, indentation: u32, out: &mut String) -> (done: Result<
        (),
        ListingError,
    >)
        ensures
            done is Ok ==> exists|labels: Tree<Seq<char>>| #[trigger]
                self@.same_shape(labels) && self@.labelled_by(labels) && final(out)@ == old(
                    out,
                )@ + labels.labelled_listing(index as nat, bars(indentation as nat)),
            done is Err ==> self@.has_failed_label(),
            exists|written: Seq<char>| final(out)@ == #[trigger] (old(out)@ + written),
    {
        let margin = margin_text(indentation);
        match self.list_labelled_under(index, &margin, out) {
            Ok(_) => Ok(()),
            Err(why) => Err(why),
        }
    }

    /// Appends the labelled listing of this node under a margin that is
    /// already made up, and tells which labels it wrote.
    fn list_labelled_under(&self, index: usize, margin: &String, out: &mut String) -> (done:
        Result<Ghost<Tree<Seq<char>>>, ListingError>)
        ensures
            done matches Ok(labels) ==> self@.same_shape(labels@) && self@.labelled_by(labels@)
                && final(out)@ == old(out)@ + labels@.labelled_listing(index as nat, margin@),
            done is Err ==> self@.has_failed_label(),
            exists|written: Seq<char>| final(out)@ == #[trigger] (old(out)@ + written),
        decreases self@,
    {
        proof {
            self.lemma_view_arity();
        }
        let label = match debug_text(self.get_data()) {
            Some(text) => text,
            None => {
                assert(out@ == old(out)@ + Seq::<char>::empty());
                return Err(ListingError::Label);
            },
        };
        push_heading(out, index, margin.as_str(), Some(label.as_str()));
        let below = deeper(margin);
        let ghost mut slots: Seq<Option<Tree<Seq<char>>>> = Seq::empty();
        let mut i: usize = 0;
        while i < N
            invariant
                i <= N,
                self@.slots.len() == N,
                below@ == margin@ + seq![' ', '|'],
                slots.len() == i,
                renders(self@.data, Some(label@)),
                forall|j: int|
                    0 <= j < i ==> match (#[trigger] self@.slots[j], slots[j]) {
                        (Some(a), Some(b)) => a.same_shape(b) && a.labelled_by(b),
                        (None, None) => true,
                        _ => false,
                    },
                out@ == old(out)@ + labelled_heading(index as nat, margin@, label@) + (Tree {
                    data: label@,
                    slots,
                }).labelled_listing_below(i as nat, below@),
            decreases N - i,
        {
            let ghost before = out@;
            let ghost earlier = slots;
            match self.peek(i) {
                Some(child) => {
                    match child.list_labelled_under(i, &below, out) {
                        Ok(sub) => {
                            proof {
                                slots = earlier.push(Some(sub@));
                            }
                        },
                        Err(why) => {
                            proof {
                                let more = choose|written: Seq<char>|
                                    out@ == #[trigger] (before + written);
                                let so_far = labelled_heading(index as nat, margin@, label@) + (
                                Tree { data: label@, slots }).labelled_listing_below(
                                    i as nat,
                                    below@,
                                );
                                assert(out@ == old(out)@ + (so_far + more));
                                assert(self@.slots[i as int] matches Some(sub)
                                    && sub.has_failed_label());
                            }
                            return Err(why);
                        },
                    }
                },
                None => {
                    proof {
                        slots = earlier.push(None);
                    }
                },
            }
            proof {
                let shorter = Tree { data: label@, slots: earlier };
                let longer = Tree { data: label@, slots };
                longer.lemma_listing_below_of_prefix(shorter, i as nat, below@);
                assert(out@ == before + (match longer.slots[i as int] {
                    Some(sub) => sub.labelled_listing(i as nat, below@),
                    None => Seq::empty(),
                }));
            }
            i = i + 1;
        }
        let ghost labels = Tree { data: label@, slots };
        assert(out@ == old(out)@ + labels.labelled_listing(index as nat, margin@));
        Ok(Ghost(labels))
    }

    /// The labelled listing of this node as a root: in slot 0 and with no
    /// margin.
    ///
    /// On success the labels are texts that rendering the payloads gave,
    /// each at its node. A failure is reported only where rendering gave
    /// one for a payload of the tree.
    pub fn to_debug_string(&self) -> (done: Result<String, ListingError>)
        ensures
            done matches Ok(text) ==> exists|labels: Tree<Seq<char>>| #[trigger]
                self@.same_shape(labels) && self@.labelled_by(labels) && text@
                    == labels.labelled_listing(0, Seq::empty()),
            done is Err ==> self@.has_failed_label(),
    {
        let mut text = String::new();
        match self.dbg_indent(0, 0, &mut text) {
            Ok(()) => Ok(text),
            Err(why) => Err(why),
        }
    }
}

impl<const N: usize, T: std::fmt::Debug> Ntree<N, T> {
    /// The word `[Ntree]` and after it the labelled listing of the root.
    ///
    /// On success the labels are texts that rendering the payloads gave,
    /// each at its node. A failure is reported only where rendering gave
    /// one for a payload of the tree.
    pub fn to_debug_string(&self) -> (done: Result<String, ListingError>)
        ensures
            done matches Ok(text) ==> exists|labels: Tree<Seq<char>>| #[trigger]
                self@.same_shape(labels) && self@.labelled_by(labels) && text@ == "[Ntree]"@
                    + labels.labelled_listing(0, Seq::empty()),
            done is Err ==> self@.has_failed_label(),
    {
        let mut text = String::new();
        text.append("[Ntree]");
        match self.interface().dbg_indent(0, 0, &mut text) {
            Ok(()) => Ok(text),
            Err(why) => Err(why),
        }
    }
}

} // verus!
