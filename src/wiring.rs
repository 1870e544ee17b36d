//! Wiring: turning a table of bindings into per-module port sets and the
//! units to schedule.
//!
//! A binding says that port `port` of module `module` reads (`<-`) or
//! writes (`->`) signal `signal`. Every module becomes one unit, which owns
//! the ports of all its bindings; a reading port gets a subscriber of its
//! own, and the writing ports of a signal share its publisher.

use crate::port::{In, Out};
use crate::signal::{Connect, Sender};
use crate::cursor::fresh;
use vstd::prelude::*;

verus! {

/// The direction of a binding.
#[derive(Debug, Clone, Copy, PartialEq, Eq, Structural)]
pub enum Way {
    /// `<-`: the module reads the signal.
    In,
    /// `->`: the module writes the signal.
    Out,
}

/// One row of a connection manifest: `module.port <- signal` or
/// `module.port -> signal`.
pub struct Binding {
    /// The module that owns the port.
    pub module: String,
    /// The port's name within its module.
    pub port: String,
    /// Whether the port reads or writes the signal.
    pub way: Way,
    /// The signal's name.
    pub signal: String,
}

/// One schedulable unit: a module and the rows of the manifest that bind
/// its ports.
pub struct Unit {
    /// The module's name.
    pub module: String,
    /// Indices of the module's rows in the manifest, in manifest order.
    pub rows: Vec<usize>,
}

/// Why a manifest cannot be wired.
#[derive(Debug, Clone, Copy, PartialEq, Eq, Structural)]
pub enum WiringError {
    /// The row at this index binds a port that an earlier row already bound.
    DuplicatePort(usize),
}

/// A port made for one binding.
#[verifier::reject_recursive_types(T)]
pub enum Terminal<T> {
    /// A reading port, with a subscriber of its own.
    In(In<T>),
    /// A writing port, sharing the signal's publisher.
    Out(Out<T>),
}

/// Rows `i` and `j` bind the same port of the same module.
pub open spec fn same_port(rows: Seq<Binding>, i: int, j: int) -> bool {
    rows[i].module@ == rows[j].module@ && rows[i].port@ == rows[j].port@
}

/// `units` partitions the rows of `rows` by module: each unit lists, in
/// increasing order, exactly the rows of its module; no two units share a
/// module; units come in the order in which their modules first appear.
pub open spec fn partitions(rows: Seq<Binding>, units: Seq<Unit>) -> bool {
    &&& forall|u: int|
        #![trigger units[u]]
        0 <= u < units.len() ==> {
            &&& units[u].rows@.len() > 0
            &&& forall|k: int|
                #![trigger units[u].rows@[k]]
                0 <= k < units[u].rows@.len() ==> units[u].rows@[k] < rows.len()
                    && rows[units[u].rows@[k] as int].module@ == units[u].module@
            &&& forall|k: int, l: int|
                #![trigger units[u].rows@[k], units[u].rows@[l]]
                0 <= k < l < units[u].rows@.len() ==> units[u].rows@[k] < units[u].rows@[l]
        }
    &&& forall|u: int, v: int|
        #![trigger units[u], units[v]]
        0 <= u < v < units.len() ==> units[u].module@ != units[v].module@ && units[u].rows@[0]
            < units[v].rows@[0]
    &&& forall|i: int| 0 <= i < rows.len() ==> #[trigger] listed(units, i)
}

/// Some unit of `units` lists row `i`.
pub open spec fn listed(units: Seq<Unit>, i: int) -> bool {
    exists|u: int, k: int|
        0 <= u < units.len() && 0 <= k < units[u].rows@.len() && #[trigger] units[u].rows@[k] == i
}

/// Row `i` binds a port that an earlier row already bound.
pub open spec fn repeats_earlier(rows: Seq<Binding>, i: int) -> bool {
    exists|j: int| 0 <= j < i && #[trigger] same_port(rows, j, i)
}

/// The index of the first row that binds a port already bound by an earlier
/// row, if there is one.
pub fn first_repeat(rows: &Vec<Binding>) -> (r: Option<usize>)
    ensures
        r matches Some(i) ==> i < rows@.len() && repeats_earlier(rows@, i as int),
        r matches Some(i) ==> forall|i2: int, j: int|
            0 <= j < i2 < i ==> !same_port(rows@, j, i2),
        r is None ==> forall|i2: int, j: int|
            0 <= j < i2 < rows@.len() ==> !same_port(rows@, j, i2),
{
    let n = rows.len();
    let mut i: usize = 0;
    while i < n
        invariant
            n == rows@.len(),
            i <= n,
            forall|i2: int, j: int| 0 <= j < i2 < i ==> !same_port(rows@, j, i2),
        decreases n - i,
    {
        let mut j: usize = 0;
        while j < i
            invariant
                n == rows@.len(),
                j <= i < n,
                forall|i2: int, j2: int| 0 <= j2 < i2 < i ==> !same_port(rows@, j2, i2),
                forall|j2: int| 0 <= j2 < j ==> !same_port(rows@, j2, i as int),
            decreases i - j,
        {
            if rows[j].module == rows[i].module && rows[j].port == rows[i].port {
                assert(same_port(rows@, j as int, i as int));
                assert(repeats_earlier(rows@, i as int));
                return Some(i);
            }
            j = j + 1;
        }
        i = i + 1;
    }
    None
}

/// The unit of module `m` among `units`, if there is one.
fn find_unit(units: &Vec<Unit>, m: &String) -> (r: Option<usize>)
    ensures
        r matches Some(u) ==> u < units@.len() && units@[u as int].module@ == m@,
        r is None ==> forall|u: int| 0 <= u < units@.len() ==> units@[u].module@ != m@,
{
    let mut u: usize = 0;
    while u < units.len()
        invariant
            u <= units@.len(),
            forall|v: int| 0 <= v < u ==> units@[v].module@ != m@,
        decreases units@.len() - u,
    {
        if units[u].module == *m {
            return Some(u);
        }
        u = u + 1;
    }
    None
}

/// The units to schedule for a manifest whose rows bind each port once:
/// one per module, in the order in which modules first appear, each with
/// the indices of its module's rows in manifest order. Fails with the first
/// row that binds a port a second time.
pub fn connections(rows: &Vec<Binding>) -> (r: Result<Vec<Unit>, WiringError>)
    ensures
        r matches Ok(units) ==> partitions(rows@, units@),
        r matches Ok(_) <==> forall|i2: int, j: int|
            0 <= j < i2 < rows@.len() ==> !same_port(rows@, j, i2),
        r matches Err(WiringError::DuplicatePort(i)) ==> i < rows@.len() && repeats_earlier(
            rows@,
            i as int,
        ) && forall|i2: int, j: int|
            0 <= j < i2 < i ==> !same_port(rows@, j, i2),
{
    if let Some(i) = first_repeat(rows) {
        return Err(WiringError::DuplicatePort(i));
    }
    let n = rows.len();
    let mut units: Vec<Unit> = Vec::new();
    let mut i: usize = 0;
    while i < n
        invariant
            n == rows@.len(),
            i <= n,
            partitions(rows@.subrange(0, i as int), units@),
        decreases n - i,
    {
        let ghost prefix = rows@.subrange(0, i as int);
        let ghost next = rows@.subrange(0, i + 1);
        let ghost before = units@;
        assert forall|i2: int| 0 <= i2 < i implies prefix[i2] == next[i2] by {}
        match find_unit(&units, &rows[i].module) {
            Some(u) => {
                let mut unit_rows = Vec::new();
                std::mem::swap(&mut unit_rows, &mut units[u].rows);
                unit_rows.push(i);
                std::mem::swap(&mut unit_rows, &mut units[u].rows);
                proof {
                    assert forall|w: int| 0 <= w < units@.len() && w != u implies units@[w]
                        == before[w] by {}
                    lemma_extend_unit(prefix, next, before, units@, u as int, i);
                }
            },
            None => {
                let mut fresh_rows = Vec::new();
                fresh_rows.push(i);
                units.push(Unit { module: rows[i].module.clone(), rows: fresh_rows });
                proof {
                    lemma_open_unit(prefix, next, before, units@, i);
                }
            },
        }
        i = i + 1;
    }
    assert(rows@.subrange(0, n as int) =~= rows@);
    Ok(units)
}

proof fn lemma_extend_unit(
    prefix: Seq<Binding>,
    next: Seq<Binding>,
    before: Seq<Unit>,
    after: Seq<Unit>,
    u: int,
    i: usize,
)
    requires
        partitions(prefix, before),
        prefix.len() == i,
        next.len() == i + 1,
        forall|i2: int| 0 <= i2 < i ==> prefix[i2] == next[i2],
        0 <= u < before.len(),
        before[u].module@ == next[i as int].module@,
        after.len() == before.len(),
        forall|w: int| 0 <= w < after.len() && w != u ==> after[w] == before[w],
        after[u].module == before[u].module,
        after[u].rows@ == before[u].rows@.push(i),
    ensures
        partitions(next, after),
{
    assert forall|w: int|
        #![trigger after[w]]
        0 <= w < after.len() implies {
        &&& after[w].rows@.len() > 0
        &&& forall|k: int|
            #![trigger after[w].rows@[k]]
            0 <= k < after[w].rows@.len() ==> after[w].rows@[k] < next.len()
                && next[after[w].rows@[k] as int].module@ == after[w].module@
        &&& forall|k: int, l: int|
            #![trigger after[w].rows@[k], after[w].rows@[l]]
            0 <= k < l < after[w].rows@.len() ==> after[w].rows@[k] < after[w].rows@[l]
    } by {
        let bw = before[w];
        assert(bw.rows@.len() > 0);
        if w == u {
            assert forall|k: int|
                #![trigger after[w].rows@[k]]
                0 <= k < after[w].rows@.len() implies after[w].rows@[k] < next.len()
                && next[after[w].rows@[k] as int].module@ == after[w].module@ by {
                if k < bw.rows@.len() {
                    assert(after[w].rows@[k] == bw.rows@[k]);
                    assert(bw.rows@[k] < prefix.len());
                    assert(next[bw.rows@[k] as int] == prefix[bw.rows@[k] as int]);
                }
            }
            assert forall|k: int, l: int|
                #![trigger after[w].rows@[k], after[w].rows@[l]]
                0 <= k < l < after[w].rows@.len() implies after[w].rows@[k]
                < after[w].rows@[l] by {
                assert(after[w].rows@[k] == bw.rows@[k]);
                assert(bw.rows@[k] < prefix.len());
                if l < bw.rows@.len() {
                    assert(after[w].rows@[l] == bw.rows@[l]);
                }
            }
        } else {
            assert forall|k: int|
                #![trigger after[w].rows@[k]]
                0 <= k < after[w].rows@.len() implies after[w].rows@[k] < next.len()
                && next[after[w].rows@[k] as int].module@ == after[w].module@ by {
                assert(after[w].rows@[k] == bw.rows@[k]);
                assert(bw.rows@[k] < prefix.len());
                assert(next[bw.rows@[k] as int] == prefix[bw.rows@[k] as int]);
            }
        }
    }
    assert forall|v: int, w: int|
        #![trigger after[v], after[w]]
        0 <= v < w < after.len() implies after[v].module@ != after[w].module@ && after[v].rows@[0]
        < after[w].rows@[0] by {
        assert(before[v].rows@.len() > 0 && before[w].rows@.len() > 0);
        assert(after[v].rows@[0] == before[v].rows@[0]);
        assert(after[w].rows@[0] == before[w].rows@[0]);
        assert(before[v].module@ != before[w].module@);
    }
    assert forall|i2: int| 0 <= i2 < next.len() implies #[trigger] listed(after, i2) by {
        if i2 == i {
            let k = before[u].rows@.len() as int;
            assert(after[u].rows@[k] == i2);
        } else {
            assert(listed(before, i2));
            let (w, k) = choose|w: int, k: int|
                0 <= w < before.len() && 0 <= k < before[w].rows@.len() && #[trigger] before[w].rows@[k]
                    == i2;
            if w == u {
                assert(after[u].rows@[k] == i2);
            } else {
                assert(after[w].rows@[k] == i2);
            }
        }
    }
}

proof fn lemma_open_unit(
    prefix: Seq<Binding>,
    next: Seq<Binding>,
    before: Seq<Unit>,
    after: Seq<Unit>,
    i: usize,
)
    requires
        partitions(prefix, before),
        prefix.len() == i,
        next.len() == i + 1,
        forall|i2: int| 0 <= i2 < i ==> prefix[i2] == next[i2],
        forall|w: int| 0 <= w < before.len() ==> before[w].module@ != next[i as int].module@,
        after.len() == before.len() + 1,
        forall|w: int| 0 <= w < before.len() ==> after[w] == before[w],
        after[before.len() as int].module@ == next[i as int].module@,
        after[before.len() as int].rows@ == seq![i],
    ensures
        partitions(next, after),
{
    let last = before.len() as int;
    assert forall|w: int|
        #![trigger after[w]]
        0 <= w < after.len() implies {
        &&& after[w].rows@.len() > 0
        &&& forall|k: int|
            #![trigger after[w].rows@[k]]
            0 <= k < after[w].rows@.len() ==> after[w].rows@[k] < next.len()
                && next[after[w].rows@[k] as int].module@ == after[w].module@
        &&& forall|k: int, l: int|
            #![trigger after[w].rows@[k], after[w].rows@[l]]
            0 <= k < l < after[w].rows@.len() ==> after[w].rows@[k] < after[w].rows@[l]
    } by {
        if w < last {
            let bw = before[w];
            assert(bw.rows@.len() > 0);
            assert forall|k: int|
                #![trigger after[w].rows@[k]]
                0 <= k < after[w].rows@.len() implies after[w].rows@[k] < next.len()
                && next[after[w].rows@[k] as int].module@ == after[w].module@ by {
                assert(after[w].rows@[k] == bw.rows@[k]);
                assert(bw.rows@[k] < prefix.len());
                assert(next[bw.rows@[k] as int] == prefix[bw.rows@[k] as int]);
            }
            assert forall|k: int, l: int|
                #![trigger after[w].rows@[k], after[w].rows@[l]]
                0 <= k < l < after[w].rows@.len() implies after[w].rows@[k]
                < after[w].rows@[l] by {
                assert(after[w].rows@[k] == bw.rows@[k]);
                assert(after[w].rows@[l] == bw.rows@[l]);
            }
        }
    }
    assert forall|v: int, w: int|
        #![trigger after[v], after[w]]
        0 <= v < w < after.len() implies after[v].module@ != after[w].module@ && after[v].rows@[0]
        < after[w].rows@[0] by {
        assert(before[v].rows@.len() > 0);
        assert(after[v].rows@[0] == before[v].rows@[0]);
        assert(before[v].rows@[0] < prefix.len());
        if w < last {
            assert(before[w].rows@.len() > 0);
            assert(after[w].rows@[0] == before[w].rows@[0]);
            assert(before[v].module@ != before[w].module@);
        }
    }
    assert forall|i2: int| 0 <= i2 < next.len() implies #[trigger] listed(after, i2) by {
        if i2 == i {
            assert(after[last].rows@[0] == i2);
        } else {
            assert(listed(before, i2));
            let (w, k) = choose|w: int, k: int|
                0 <= w < before.len() && 0 <= k < before[w].rows@.len() && #[trigger] before[w].rows@[k]
                    == i2;
            assert(after[w].rows@[k] == i2);
        }
    }
}

/// One entry of a module's port set: `name <- Type` or `name -> Type`.
pub struct PortDecl {
    /// The port's name.
    pub name: String,
    /// Whether the port reads or writes.
    pub way: Way,
    /// The name of the type the port carries.
    pub ty: String,
}

/// Why a module's bindings do not fill its port set.
#[derive(Debug, Clone, Copy, PartialEq, Eq, Structural)]
pub enum PortSetError {
    /// The row at this index binds a port the module does not declare.
    Undeclared(usize),
    /// The row at this index binds a declared port in the other direction.
    WrongWay(usize),
    /// The port declared at this index is bound by no row of the module.
    Unbound(usize),
}

/// Some entry of `decls` is named `name`.
pub open spec fn names(decls: Seq<PortDecl>, name: Seq<char>) -> bool {
    exists|d: int| 0 <= d < decls.len() && #[trigger] decls[d].name@ == name
}

/// Some entry of `decls` is named `name` and has direction `way`.
pub open spec fn declares(decls: Seq<PortDecl>, name: Seq<char>, way: Way) -> bool {
    exists|d: int| 0 <= d < decls.len() && #[trigger] decls[d].name@ == name && decls[d].way == way
}

/// Row `i`, if it belongs to module `m`, binds a declared port in its
/// declared direction.
pub open spec fn fits(decls: Seq<PortDecl>, m: Seq<char>, rows: Seq<Binding>, i: int) -> bool {
    rows[i].module@ == m ==> declares(decls, rows[i].port@, rows[i].way)
}

/// Some row of module `m` binds port `name`.
pub open spec fn bound(rows: Seq<Binding>, m: Seq<char>, name: Seq<char>) -> bool {
    exists|i: int| 0 <= i < rows.len() && #[trigger] rows[i].module@ == m && rows[i].port@ == name
}

/// Looks up port `name` among `decls`: whether some entry has that name,
/// and whether some entry has that name and direction `way`.
fn lookup(decls: &Vec<PortDecl>, name: &String, way: Way) -> (r: (bool, bool))
    ensures
        r.0 == names(decls@, name@),
        r.1 == declares(decls@, name@, way),
{
    let mut named = false;
    let mut d: usize = 0;
    while d < decls.len()
        invariant
            d <= decls@.len(),
            named == exists|e: int| 0 <= e < d && #[trigger] decls@[e].name@ == name@,
            forall|e: int|
                0 <= e < d ==> !(#[trigger] decls@[e].name@ == name@ && decls@[e].way == way),
        decreases decls@.len() - d,
    {
        if decls[d].name == *name {
            named = true;
            assert(decls@[d as int].name@ == name@);
            if decls[d].way == way {
                return (true, true);
            }
        }
        d = d + 1;
    }
    (named, false)
}

/// Whether some row of module `m` binds port `name`.
fn is_bound(rows: &Vec<Binding>, m: &String, name: &String) -> (r: bool)
    ensures
        r == bound(rows@, m@, name@),
{
    let mut i: usize = 0;
    while i < rows.len()
        invariant
            i <= rows@.len(),
            forall|j: int|
                0 <= j < i ==> !(#[trigger] rows@[j].module@ == m@ && rows@[j].port@ == name@),
        decreases rows@.len() - i,
    {
        if rows[i].module == *m && rows[i].port == *name {
            assert(rows@[i as int].module@ == m@ && rows@[i as int].port@ == name@);
            return true;
        }
        i = i + 1;
    }
    false
}

/// Checks that the rows of module `m` fill its port set `decls` exactly:
/// every row of `m` binds a declared port in its declared direction, and
/// every declared port is bound. Rows are checked first, in manifest order,
/// then the declared ports, in order; the first failure is returned.
pub fn ports(decls: &Vec<PortDecl>, m: &String, rows: &Vec<Binding>) -> (r: Result<
    (),
    PortSetError,
>)
    ensures
        r is Ok <==> (forall|i: int| 0 <= i < rows@.len() ==> #[trigger] fits(decls@, m@, rows@, i))
            && (forall|d: int|
            0 <= d < decls@.len() ==> #[trigger] bound(rows@, m@, decls@[d].name@)),
        r matches Err(PortSetError::Undeclared(i)) ==> i < rows@.len() && rows@[i as int].module@
            == m@ && !names(decls@, rows@[i as int].port@) && forall|j: int|
            0 <= j < i ==> #[trigger] fits(decls@, m@, rows@, j),
        r matches Err(PortSetError::WrongWay(i)) ==> i < rows@.len() && rows@[i as int].module@
            == m@ && names(decls@, rows@[i as int].port@) && !declares(
            decls@,
            rows@[i as int].port@,
            rows@[i as int].way,
        ) && forall|j: int| 0 <= j < i ==> #[trigger] fits(decls@, m@, rows@, j),
        r matches Err(PortSetError::Unbound(d)) ==> d < decls@.len() && !bound(
            rows@,
            m@,
            decls@[d as int].name@,
        ) && (forall|i: int| 0 <= i < rows@.len() ==> #[trigger] fits(decls@, m@, rows@, i))
            && forall|e: int| 0 <= e < d ==> #[trigger] bound(rows@, m@, decls@[e].name@),
{
    let mut i: usize = 0;
    while i < rows.len()
        invariant
            i <= rows@.len(),
            forall|j: int| 0 <= j < i ==> #[trigger] fits(decls@, m@, rows@, j),
        decreases rows@.len() - i,
    {
        if rows[i].module == *m {
            let (named, declared) = lookup(decls, &rows[i].port, rows[i].way);
            if !named {
                proof {
                    if declares(decls@, rows@[i as int].port@, rows@[i as int].way) {
                        let d = choose|d: int|
                            0 <= d < decls@.len() && #[trigger] decls@[d].name@ == rows@[i as int].port@
                                && decls@[d].way == rows@[i as int].way;
                        assert(names(decls@, rows@[i as int].port@));
                    }
                    assert(!fits(decls@, m@, rows@, i as int));
                }
                return Err(PortSetError::Undeclared(i));
            }
            if !declared {
                assert(!fits(decls@, m@, rows@, i as int));
                return Err(PortSetError::WrongWay(i));
            }
        }
        i = i + 1;
    }
    let mut d: usize = 0;
    while d < decls.len()
        invariant
            d <= decls@.len(),
            forall|j: int| 0 <= j < rows@.len() ==> #[trigger] fits(decls@, m@, rows@, j),
            forall|e: int| 0 <= e < d ==> #[trigger] bound(rows@, m@, decls@[e].name@),
        decreases decls@.len() - d,
    {
        if !is_bound(rows, m, &decls[d].name) {
            return Err(PortSetError::Unbound(d));
        }
        d = d + 1;
    }
    Ok(())
}

/// Some entry of `r` is for row `i`.
pub open spec fn lists<T>(r: Seq<(usize, Terminal<T>)>, i: int) -> bool {
    exists|k: int| 0 <= k < r.len() && #[trigger] r[k].0 == i
}

/// The ports of all rows of `rows` bound to signal `name`, whose publisher
/// is `tx`: one entry per such row, in manifest order, with the row's index.
/// A reading row gets a subscriber of its own that has observed nothing; a
/// writing row gets a handle sharing `tx`. No other handle is made.
pub fn terminals<T: Clone + PartialEq>(rows: &Vec<Binding>, name: &String, tx: &mut Sender<T>) -> (r:
    Vec<(usize, Terminal<T>)>)
    ensures
        *final(tx) == *old(tx),
        forall|k: int|
            #![trigger r@[k]]
            0 <= k < r@.len() ==> {
                &&& r@[k].0 < rows@.len()
                &&& rows@[r@[k].0 as int].signal@ == name@
                &&& (r@[k].1 is In <==> rows@[r@[k].0 as int].way == Way::In)
                &&& (r@[k].1 matches Terminal::In(p) ==> p.signal.cursor == fresh::<T>())
            },
        forall|k: int, l: int| #![trigger r@[k], r@[l]] 0 <= k < l < r@.len() ==> r@[k].0 < r@[l].0,
        forall|i: int| 0 <= i < rows@.len() && rows@[i].signal@ == name@ ==> #[trigger] lists(r@, i),
{
    let mut r: Vec<(usize, Terminal<T>)> = Vec::new();
    let mut i: usize = 0;
    while i < rows.len()
        invariant
            i <= rows@.len(),
            *tx == *old(tx),
            forall|k: int|
                #![trigger r@[k]]
                0 <= k < r@.len() ==> {
                    &&& r@[k].0 < i
                    &&& rows@[r@[k].0 as int].signal@ == name@
                    &&& (r@[k].1 is In <==> rows@[r@[k].0 as int].way == Way::In)
                    &&& (r@[k].1 matches Terminal::In(p) ==> p.signal.cursor == fresh::<T>())
                },
            forall|k: int, l: int| #![trigger r@[k], r@[l]] 0 <= k < l < r@.len() ==> r@[k].0 < r@[l].0,
            forall|j: int| 0 <= j < i && rows@[j].signal@ == name@ ==> #[trigger] lists(r@, j),
        decreases rows@.len() - i,
    {
        if rows[i].signal == *name {
            let t = attach(rows[i].way, tx);
            let ghost before = r@;
            r.push((i, t));
            proof {
                assert(r@[before.len() as int].0 == i);
                assert(lists(r@, i as int));
                assert forall|j: int| 0 <= j < i && rows@[j].signal@ == name@ implies #[trigger] lists(r@, j) by {
                    assert(lists(before, j));
                    let k = choose|k: int| 0 <= k < before.len() && #[trigger] before[k].0 == j;
                    assert(r@[k] == before[k]);
                }
                assert forall|k: int| 0 <= k < r@.len() - 1 implies #[trigger] r@[k] == before[k] by {}
            }
        }
        i = i + 1;
    }
    r
}

/// The port for one binding on signal `tx`: a reading port gets a new
/// subscriber that has observed nothing; a writing port gets one more
/// handle on the signal's publisher.
pub fn attach<T: Clone + PartialEq>(way: Way, tx: &mut Sender<T>) -> (r: Terminal<T>)
    ensures
        way == Way::In <==> r is In,
        r matches Terminal::In(p) ==> p.signal.cursor == fresh::<T>(),
        *final(tx) == *old(tx),
{
    match way {
        Way::In => Terminal::In(tx.connect_in()),
        Way::Out => Terminal::Out(tx.connect_out()),
    }
}

} // verus!
