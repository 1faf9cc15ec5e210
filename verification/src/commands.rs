//! The command registry: every registered name, long or short, with the
//! handler it is bound to, in the order of registration.

use vstd::prelude::*;
use std::rc::Rc;
use crate::distance::{chars_distance, chars_of, edit_distance};

verus! {

/// The bindings of a registry, oldest first: each a name and its handler.
pub type Bindings<H> = Seq<(Seq<char>, H)>;

/// The names of `bindings`, oldest first.
pub open spec fn names_of<H>(bindings: Bindings<H>) -> Seq<Seq<char>> {
    Seq::new(bindings.len(), |i: int| bindings[i].0)
}

/// `name` is bound in `bindings`.
pub open spec fn bound<H>(bindings: Bindings<H>, name: Seq<char>) -> bool {
    exists|i: int| 0 <= i < bindings.len() && (#[trigger] bindings[i]).0 == name
}

/// The handler that `name` is bound to in `bindings`: that of the oldest
/// binding of exactly this name.
pub open spec fn lookup<H>(bindings: Bindings<H>, name: Seq<char>) -> Option<H>
    decreases bindings.len(),
{
    if bindings.len() == 0 {
        None
    } else {
        match lookup(bindings.drop_last(), name) {
            Some(h) => Some(h),
            None => if bindings.last().0 == name {
                Some(bindings.last().1)
            } else {
                None
            },
        }
    }
}

/// No name is empty and no name is bound twice.
pub open spec fn valid<H>(bindings: Bindings<H>) -> bool {
    &&& forall|i: int| 0 <= i < bindings.len() ==> (#[trigger] bindings[i]).0.len() > 0
    &&& forall|i: int, j: int|
        0 <= i < j < bindings.len() ==> (#[trigger] bindings[i]).0 != (#[trigger] bindings[j]).0
}

/// `bindings` after an attempt to bind `name` to `handler`: unchanged if the
/// name is taken, one binding longer if it is free.
pub open spec fn bind<H>(bindings: Bindings<H>, name: Seq<char>, handler: H) -> Bindings<H> {
    if bound(bindings, name) {
        bindings
    } else {
        bindings.push((name, handler))
    }
}

/// A name is bound exactly when looking it up finds a handler.
pub proof fn lemma_lookup_finds_bound<H>(bindings: Bindings<H>, name: Seq<char>)
    ensures
        lookup(bindings, name) is Some <==> bound(bindings, name),
    decreases bindings.len(),
{
    if bindings.len() != 0 {
        let before = bindings.drop_last();
        lemma_lookup_finds_bound(before, name);
        if bound(before, name) {
            let i = choose|i: int| 0 <= i < before.len() && (#[trigger] before[i]).0 == name;
            assert(bindings[i].0 == name);
        }
        if bound(bindings, name) && !bound(before, name) {
            let i = choose|i: int| 0 <= i < bindings.len() && (#[trigger] bindings[i]).0 == name;
            if i < before.len() {
                assert(before[i].0 == name);
            }
        }
        if bindings.last().0 == name {
            assert(bindings[bindings.len() - 1].0 == name);
        }
    }
}

/// A binding that is added is found under its name, and changes what is found
/// under no other name.
pub proof fn lemma_lookup_after_push<H>(
    bindings: Bindings<H>,
    name: Seq<char>,
    handler: H,
    other: Seq<char>,
)
    requires
        !bound(bindings, name),
    ensures
        lookup(bindings.push((name, handler)), name) == Some(handler),
        other != name ==> lookup(bindings.push((name, handler)), other) == lookup(bindings, other),
{
    lemma_lookup_finds_bound(bindings, name);
    assert(bindings.push((name, handler)).drop_last() == bindings);
}

/// Looking up a name finds the handler of the oldest binding of that name.
pub proof fn lemma_lookup_first<H>(bindings: Bindings<H>, name: Seq<char>, i: int)
    requires
        0 <= i < bindings.len(),
        bindings[i].0 == name,
        forall|k: int| 0 <= k < i ==> (#[trigger] bindings[k]).0 != name,
    ensures
        lookup(bindings, name) == Some(bindings[i].1),
    decreases bindings.len(),
{
    let before = bindings.drop_last();
    if i < before.len() {
        assert(before[i] == bindings[i]);
        assert forall|k: int| 0 <= k < i implies (#[trigger] before[k]).0 != name by {
            assert(before[k] == bindings[k]);
        }
        lemma_lookup_first(before, name, i);
    } else {
        lemma_lookup_finds_bound(before, name);
        if bound(before, name) {
            let k = choose|k: int| 0 <= k < before.len() && (#[trigger] before[k]).0 == name;
            assert(before[k] == bindings[k]);
        }
    }
}

/// An attempt to bind a name that is not empty leaves valid bindings valid.
pub proof fn lemma_bind_keeps_valid<H>(bindings: Bindings<H>, name: Seq<char>, handler: H)
    requires
        valid(bindings),
        name.len() > 0,
    ensures
        valid(bind(bindings, name, handler)),
{
    if !bound(bindings, name) {
        let after = bindings.push((name, handler));
        assert forall|i: int, j: int| 0 <= i < j < after.len() implies (#[trigger] after[i]).0 != (
        #[trigger] after[j]).0 by {
            if j == bindings.len() {
                assert(after[i] == bindings[i]);
            } else {
                assert(after[i] == bindings[i] && after[j] == bindings[j]);
            }
        }
        assert forall|i: int| 0 <= i < after.len() implies (#[trigger] after[i]).0.len() > 0 by {
            if i < bindings.len() {
                assert(after[i] == bindings[i]);
            }
        }
    }
}

/// A second attempt at a name is refused, whatever the first one did, and
/// changes nothing.
pub proof fn lemma_rebinding_refused<H>(
    bindings: Bindings<H>,
    name: Seq<char>,
    first: H,
    second: H,
)
    ensures
        bound(bind(bindings, name, first), name),
        bind(bind(bindings, name, first), name, second) == bind(bindings, name, first),
{
    if !bound(bindings, name) {
        let after = bindings.push((name, first));
        assert(after[bindings.len() as int].0 == name);
    }
}

/// Binding a free name and then trying the same name with another handler:
/// the second attempt is refused, and the name still leads to the first
/// handler.
pub proof fn lemma_first_binding_stays<H>(
    bindings: Bindings<H>,
    name: Seq<char>,
    first: H,
    second: H,
)
    requires
        !bound(bindings, name),
    ensures
        bound(bind(bindings, name, first), name),
        lookup(bind(bind(bindings, name, first), name, second), name) == Some(first),
{
    lemma_rebinding_refused(bindings, name, first, second);
    lemma_lookup_after_push(bindings, name, first, name);
}

/// An attempt at one name decides nothing about another name: whether the
/// other is free, and what it leads to, stay as they were.
pub proof fn lemma_names_independent<H>(
    bindings: Bindings<H>,
    name: Seq<char>,
    handler: H,
    other: Seq<char>,
)
    requires
        name != other,
    ensures
        bound(bind(bindings, name, handler), other) == bound(bindings, other),
        lookup(bind(bindings, name, handler), other) == lookup(bindings, other),
{
    let after = bind(bindings, name, handler);
    lemma_lookup_finds_bound(bindings, other);
    lemma_lookup_finds_bound(after, other);
    if !bound(bindings, name) {
        lemma_lookup_after_push(bindings, name, handler, other);
    }
}

/// One handler bound under two distinct free names is found under each.
pub proof fn lemma_alias_binds_both<H>(
    bindings: Bindings<H>,
    long: Seq<char>,
    short: Seq<char>,
    handler: H,
)
    requires
        long != short,
        !bound(bindings, long),
        !bound(bindings, short),
    ensures
        lookup(bind(bind(bindings, long, handler), short, handler), long) == Some(handler),
        lookup(bind(bind(bindings, long, handler), short, handler), short) == Some(handler),
{
    let first = bind(bindings, long, handler);
    lemma_names_independent(bindings, long, handler, short);
    lemma_lookup_after_push(bindings, long, handler, long);
    lemma_lookup_after_push(first, short, handler, long);
}

/// Taking the binding of one name away changes what no other name leads to.
pub proof fn lemma_removal_keeps_others<H>(bindings: Bindings<H>, i: int, other: Seq<char>)
    requires
        0 <= i < bindings.len(),
        bindings[i].0 != other,
    ensures
        lookup(bindings.remove(i), other) == lookup(bindings, other),
    decreases bindings.len(),
{
    let before = bindings.drop_last();
    if i == bindings.len() - 1 {
        assert(bindings.remove(i) == before);
    } else {
        assert(bindings.remove(i).drop_last() == before.remove(i));
        assert(bindings.remove(i).last() == bindings.last());
        lemma_removal_keeps_others(before, i, other);
    }
}

/// Giving the binding of one name a new name changes what no other name
/// leads to.
pub proof fn lemma_renaming_keeps_others<H>(
    bindings: Bindings<H>,
    i: int,
    renamed: Seq<char>,
    other: Seq<char>,
)
    requires
        0 <= i < bindings.len(),
        bindings[i].0 != other,
        renamed != other,
    ensures
        lookup(bindings.update(i, (renamed, bindings[i].1)), other) == lookup(bindings, other),
    decreases bindings.len(),
{
    let before = bindings.drop_last();
    let after = bindings.update(i, (renamed, bindings[i].1));
    if i == bindings.len() - 1 {
        assert(after.drop_last() == before);
    } else {
        assert(after.drop_last() == before.update(i, (renamed, before[i].1)));
        assert(after.last() == bindings.last());
        lemma_renaming_keeps_others(before, i, renamed, other);
    }
}

/// The names of `names` that are exactly `d` edits away from `typed`, in
/// their order in `names`.
pub open spec fn at_distance(names: Seq<Seq<char>>, typed: Seq<char>, d: nat) -> Seq<Seq<char>>
    decreases names.len(),
{
    if names.len() == 0 {
        Seq::empty()
    } else {
        let before = at_distance(names.drop_last(), typed, d);
        if edit_distance(typed, names.last()) == d {
            before.push(names.last())
        } else {
            before
        }
    }
}

/// The names of `names` that are at most `tolerance` edits away from
/// `typed`: the nearest first, and those equally near in their order in
/// `names`.
pub open spec fn suggestions(names: Seq<Seq<char>>, typed: Seq<char>, tolerance: nat) -> Seq<
    Seq<char>,
>
    decreases tolerance,
{
    if tolerance == 0 {
        at_distance(names, typed, 0)
    } else {
        suggestions(names, typed, (tolerance - 1) as nat) + at_distance(names, typed, tolerance)
    }
}

/// The names at distance `d` are names of the registry at that distance,
/// and every such name is among them.
pub proof fn lemma_at_distance_members(names: Seq<Seq<char>>, typed: Seq<char>, d: nat)
    ensures
        forall|k: int|
            0 <= k < at_distance(names, typed, d).len() ==> names.contains(
                #[trigger] at_distance(names, typed, d)[k],
            ) && edit_distance(typed, at_distance(names, typed, d)[k]) == d,
        forall|i: int|
            0 <= i < names.len() && edit_distance(typed, #[trigger] names[i]) == d
                ==> at_distance(names, typed, d).contains(names[i]),
    decreases names.len(),
{
    let found = at_distance(names, typed, d);
    if names.len() != 0 {
        let before = names.drop_last();
        let earlier = at_distance(before, typed, d);
        lemma_at_distance_members(before, typed, d);
        assert forall|k: int| 0 <= k < found.len() implies names.contains(#[trigger] found[k])
            && edit_distance(typed, found[k]) == d by {
            if k < earlier.len() {
                assert(found[k] == earlier[k]);
                assert(before.contains(earlier[k]));
                let i = choose|i: int| 0 <= i < before.len() && before[i] == earlier[k];
                assert(names[i] == earlier[k]);
            } else {
                assert(found[k] == names[names.len() - 1]);
            }
        }
        assert forall|i: int|
            0 <= i < names.len() && edit_distance(typed, #[trigger] names[i]) == d implies found.contains(
            names[i],
        ) by {
            if i < before.len() {
                assert(before[i] == names[i]);
                assert(earlier.contains(before[i]));
                let k = choose|k: int| 0 <= k < earlier.len() && earlier[k] == before[i];
                assert(found[k] == names[i]);
            } else {
                assert(found[found.len() - 1] == names[i]);
            }
        }
    }
}

/// What is suggested is a registered name within the tolerance, and every
/// registered name within the tolerance is suggested.
pub proof fn lemma_suggestions_members(names: Seq<Seq<char>>, typed: Seq<char>, tolerance: nat)
    ensures
        forall|k: int|
            0 <= k < suggestions(names, typed, tolerance).len() ==> names.contains(
                #[trigger] suggestions(names, typed, tolerance)[k],
            ) && edit_distance(typed, suggestions(names, typed, tolerance)[k]) <= tolerance,
        forall|i: int|
            0 <= i < names.len() && edit_distance(typed, #[trigger] names[i]) <= tolerance
                ==> suggestions(names, typed, tolerance).contains(names[i]),
    decreases tolerance,
{
    let all = suggestions(names, typed, tolerance);
    let last = at_distance(names, typed, tolerance);
    lemma_at_distance_members(names, typed, tolerance);
    if tolerance != 0 {
        let nearer = suggestions(names, typed, (tolerance - 1) as nat);
        lemma_suggestions_members(names, typed, (tolerance - 1) as nat);
        assert forall|k: int| 0 <= k < all.len() implies names.contains(#[trigger] all[k])
            && edit_distance(typed, all[k]) <= tolerance by {
            if k < nearer.len() {
                assert(all[k] == nearer[k]);
            } else {
                assert(all[k] == last[k - nearer.len()]);
            }
        }
        assert forall|i: int|
            0 <= i < names.len() && edit_distance(typed, #[trigger] names[i]) <= tolerance implies all.contains(
            names[i],
        ) by {
            if edit_distance(typed, names[i]) == tolerance {
                assert(last.contains(names[i]));
                let k = choose|k: int| 0 <= k < last.len() && last[k] == names[i];
                assert(all[nearer.len() + k] == names[i]);
            } else {
                assert(nearer.contains(names[i]));
                let k = choose|k: int| 0 <= k < nearer.len() && nearer[k] == names[i];
                assert(all[k] == names[i]);
            }
        }
    }
}

/// What is suggested comes in ascending order of distance.
pub proof fn lemma_suggestions_ascending(
    names: Seq<Seq<char>>,
    typed: Seq<char>,
    tolerance: nat,
    i: int,
    j: int,
)
    requires
        0 <= i <= j < suggestions(names, typed, tolerance).len(),
    ensures
        edit_distance(typed, suggestions(names, typed, tolerance)[i]) <= edit_distance(
            typed,
            suggestions(names, typed, tolerance)[j],
        ),
    decreases tolerance,
{
    let all = suggestions(names, typed, tolerance);
    let last = at_distance(names, typed, tolerance);
    lemma_at_distance_members(names, typed, tolerance);
    if tolerance != 0 {
        let nearer = suggestions(names, typed, (tolerance - 1) as nat);
        lemma_suggestions_members(names, typed, (tolerance - 1) as nat);
        if j < nearer.len() {
            assert(all[i] == nearer[i] && all[j] == nearer[j]);
            lemma_suggestions_ascending(names, typed, (tolerance - 1) as nat, i, j);
        } else if i < nearer.len() {
            assert(all[i] == nearer[i]);
            assert(all[j] == last[j - nearer.len()]);
        } else {
            assert(all[i] == last[i - nearer.len()]);
            assert(all[j] == last[j - nearer.len()]);
        }
    }
}

/// No name is at a distance that is larger than the distance of every name.
proof fn lemma_none_beyond(names: Seq<Seq<char>>, typed: Seq<char>, far: nat, d: nat)
    requires
        forall|i: int| 0 <= i < names.len() ==> edit_distance(typed, #[trigger] names[i]) <= far,
        d > far,
    ensures
        at_distance(names, typed, d) == Seq::<Seq<char>>::empty(),
    decreases names.len(),
{
    if names.len() != 0 {
        let before = names.drop_last();
        assert forall|i: int| 0 <= i < before.len() implies edit_distance(
            typed,
            #[trigger] before[i],
        ) <= far by {
            assert(before[i] == names[i]);
        }
        lemma_none_beyond(before, typed, far, d);
        assert(names.last() == names[names.len() - 1]);
    }
}

/// A tolerance beyond the distance of every name suggests what that distance
/// suggests.
proof fn lemma_suggestions_settle(names: Seq<Seq<char>>, typed: Seq<char>, far: nat, tolerance: nat)
    requires
        forall|i: int| 0 <= i < names.len() ==> edit_distance(typed, #[trigger] names[i]) <= far,
        tolerance >= far,
    ensures
        suggestions(names, typed, tolerance) == suggestions(names, typed, far),
    decreases tolerance,
{
    if tolerance > far {
        lemma_suggestions_settle(names, typed, far, (tolerance - 1) as nat);
        lemma_none_beyond(names, typed, far, tolerance);
    }
}

/// The names of `names` that begin with `start`, in their order in `names`.
pub open spec fn with_prefix(names: Seq<Seq<char>>, start: Seq<char>) -> Seq<Seq<char>>
    decreases names.len(),
{
    if names.len() == 0 {
        Seq::empty()
    } else {
        let before = with_prefix(names.drop_last(), start);
        if start.is_prefix_of(names.last()) {
            before.push(names.last())
        } else {
            before
        }
    }
}

/// The texts of a vector of strings.
pub open spec fn texts(strings: Seq<String>) -> Seq<Seq<char>> {
    Seq::new(strings.len(), |i: int| strings[i]@)
}

/// The handler that a shared pointer leads to.
pub open spec fn held<H>(shared: &Rc<H>) -> H {
    **shared
}

/// Whether `name` begins with `start`.
fn begins_with(name: &Vec<char>, start: &Vec<char>) -> (yes: bool)
    ensures
        yes == start@.is_prefix_of(name@),
{
    if start.len() > name.len() {
        return false;
    }
    let mut i: usize = 0;
    while i < start.len()
        invariant
            i <= start@.len() <= name@.len(),
            forall|k: int| 0 <= k < i ==> start@[k] == name@[k],
        decreases start@.len() - i,
    {
        if start[i] != name[i] {
            assert(name@.subrange(0, start@.len() as int)[i as int] != start@[i as int]);
            return false;
        }
        i += 1;
    }
    assert(name@.subrange(0, start@.len() as int) =~= start@);
    true
}

/// One binding of the registry.
struct Binding<H> {
    name: String,
    handler: Rc<H>,
}

/// The registry of commands.
pub struct Commands<H> {
    bindings: Vec<Binding<H>>,
}

impl<H> View for Commands<H> {
    type V = Bindings<H>;

    closed spec fn view(&self) -> Bindings<H> {
        Seq::new(self.bindings@.len(), |i: int| (self.bindings@[i].name@, *self.bindings@[i].handler))
    }
}

impl<H> Commands<H> {
    /// A registry without commands.
    pub fn new() -> (commands: Self)
        ensures
            commands@ == Seq::<(Seq<char>, H)>::empty(),
    {
        let commands = Commands { bindings: Vec::new() };
        assert(commands@ == Seq::<(Seq<char>, H)>::empty());
        commands
    }

    /// The position of the oldest binding of `name`, if it is bound.
    fn position(&self, name: &str) -> (at: Option<usize>)
        ensures
            match at {
                Some(i) => {
                    &&& i < self.bindings@.len()
                    &&& self@[i as int].0 == name@
                    &&& forall|k: int| 0 <= k < i ==> (#[trigger] self@[k]).0 != name@
                },
                None => !bound(self@, name@),
            },
    {
        let wanted = name.to_owned();
        let mut i: usize = 0;
        while i < self.bindings.len()
            invariant
                i <= self.bindings@.len(),
                wanted@ == name@,
                forall|k: int| 0 <= k < i ==> (#[trigger] self@[k]).0 != name@,
            decreases self.bindings@.len() - i,
        {
            if self.bindings[i].name == wanted {
                return Some(i);
            }
            i += 1;
        }
        None
    }

    /// Binds `command_name` to `functionality` unless the name is taken,
    /// and says whether it did.
    pub fn add_command(&mut self, command_name: &str, functionality: Rc<H>) -> (added: bool)
        requires
            command_name@.len() > 0,
        ensures
            added == !bound(old(self)@, command_name@),
            final(self)@ == bind(old(self)@, command_name@, *functionality),
            valid(old(self)@) ==> valid(final(self)@),
    {
        proof {
            if valid(self@) {
                lemma_bind_keeps_valid(self@, command_name@, held(&functionality));
            }
        }
        if self.position(command_name).is_some() {
            return false;
        }
        self.bindings.push(Binding { name: command_name.to_owned(), handler: functionality });
        assert(self@ == old(self)@.push((command_name@, *functionality)));
        true
    }

    /// The handler bound to exactly `command`, if there is one.
    pub fn find(&self, command: &str) -> (found: Option<Rc<H>>)
        ensures
            match found {
                Some(handler) => lookup(self@, command@) == Some(*handler),
                None => lookup(self@, command@) is None,
            },
    {
        proof {
            lemma_lookup_finds_bound(self@, command@);
        }
        match self.position(command) {
            Some(i) => {
                proof {
                    lemma_lookup_first(self@, command@, i as int);
                }
                Some(self.bindings[i].handler.clone())
            },
            None => None,
        }
    }

    /// The registered names that begin with `start`, in the order of their
    /// registration.
    pub fn prefix(&self, start: &str) -> (found: Vec<String>)
        ensures
            texts(found@) == with_prefix(names_of(self@), start@),
    {
        let ghost names = names_of(self@);
        let wanted = chars_of(start);
        let mut found: Vec<String> = Vec::new();
        let mut i: usize = 0;
        while i < self.bindings.len()
            invariant
                i <= self.bindings@.len(),
                names == names_of(self@),
                wanted@ == start@,
                texts(found@) == with_prefix(names.take(i as int), start@),
            decreases self.bindings@.len() - i,
        {
            proof {
                assert(names.take(i + 1).drop_last() == names.take(i as int));
                assert(names.take(i + 1).last() == names[i as int]);
            }
            let name = chars_of(self.bindings[i].name.as_str());
            if begins_with(&name, &wanted) {
                let ghost shown = texts(found@);
                found.push(self.bindings[i].name.clone());
                assert(texts(found@) == shown.push(names[i as int]));
            }
            i += 1;
        }
        proof {
            assert(names.take(i as int) == names);
        }
        found
    }

    /// The registered names that are at most `tolerance` edits away from
    /// `command`: the nearest first, and those equally near in the order
    /// of their registration.
    pub fn suggest(&self, command: &str, tolerance: u64) -> (similar: Vec<String>)
        ensures
            texts(similar@) == suggestions(names_of(self@), command@, tolerance as nat),
    {
        let ghost names = names_of(self@);
        let typed = chars_of(command);
        let count: usize = self.bindings.len();
        let mut distances: Vec<usize> = Vec::new();
        let mut far: usize = 0;
        let mut i: usize = 0;
        while i < count
            invariant
                i <= count,
                count == self.bindings@.len(),
                names == names_of(self@),
                typed@ == command@,
                distances@.len() == i,
                forall|k: int|
                    0 <= k < i ==> #[trigger] distances@[k] == edit_distance(command@, names[k]),
                forall|k: int| 0 <= k < i ==> edit_distance(command@, #[trigger] names[k]) <= far,
            decreases count - i,
        {
            let name = chars_of(self.bindings[i].name.as_str());
            let d = chars_distance(&typed, &name);
            if d > far {
                far = d;
            }
            distances.push(d);
            i += 1;
        }
        let last: usize = if (far as u64) < tolerance {
            far
        } else {
            tolerance as usize
        };
        proof {
            if (far as u64) < tolerance {
                lemma_suggestions_settle(names, command@, far as nat, tolerance as nat);
            }
        }
        let mut similar: Vec<String> = Vec::new();
        let mut d: usize = 0;
        loop
            invariant_except_break
                d <= last,
                texts(similar@) == if d == 0 {
                    Seq::<Seq<char>>::empty()
                } else {
                    suggestions(names, command@, (d - 1) as nat)
                },
            invariant
                count == self.bindings@.len(),
                names == names_of(self@),
                distances@.len() == count,
                forall|k: int|
                    0 <= k < count ==> #[trigger] distances@[k] == edit_distance(
                        command@,
                        names[k],
                    ),
            ensures
                texts(similar@) == suggestions(names, command@, last as nat),
            decreases last - d,
        {
            let ghost nearer = texts(similar@);
            let mut i: usize = 0;
            while i < count
                invariant
                    i <= count,
                    count == self.bindings@.len(),
                    names == names_of(self@),
                    distances@.len() == count,
                    forall|k: int|
                        0 <= k < count ==> #[trigger] distances@[k] == edit_distance(
                            command@,
                            names[k],
                        ),
                    texts(similar@) == nearer + at_distance(names.take(i as int), command@, d as nat),
                decreases count - i,
            {
                proof {
                    assert(names.take(i + 1).drop_last() == names.take(i as int));
                    assert(names.take(i + 1).last() == names[i as int]);
                }
                if distances[i] == d {
                    let ghost shown = texts(similar@);
                    similar.push(self.bindings[i].name.clone());
                    assert(texts(similar@) == shown.push(names[i as int]));
                }
                i += 1;
            }
            proof {
                assert(names.take(count as int) == names);
            }
            if d == last {
                break ;
            }
            d += 1;
        }
        similar
    }
}

} // verus!
