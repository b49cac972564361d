use vstd::prelude::*;

verus! {

/// Where the lock file is kept.
pub const LOCK_PATH: &'static str = "/var/db/forge/forge.lock";

/// One locked package: its name, where it came from, and the checksum of what
/// was installed.
#[derive(Debug, Clone)]
pub struct Package {
    pub name: String,
    pub source: String,
    pub checksum: String,
}

pub struct PackageModel {
    pub name: Seq<char>,
    pub source: Seq<char>,
    pub checksum: Seq<char>,
}

impl View for Package {
    type V = PackageModel;

    open spec fn view(&self) -> PackageModel {
        PackageModel { name: self.name@, source: self.source@, checksum: self.checksum@ }
    }
}

/// The lock file: the installed packages, in the order they were recorded.
pub struct Lockfile {
    pub package: Vec<Package>,
}

impl View for Lockfile {
    type V = Seq<PackageModel>;

    open spec fn view(&self) -> Seq<PackageModel> {
        self.package@.map_values(|p: Package| p@)
    }
}

impl Default for Lockfile {
    fn default() -> (r: Lockfile)
        ensures
            r@ == Seq::<PackageModel>::empty(),
    {
        let r = Lockfile { package: Vec::new() };
        assert(r@ =~= Seq::<PackageModel>::empty());
        r
    }
}

/// `i` is the first position of `ps` that holds a package named `name`.
pub open spec fn first_named(ps: Seq<PackageModel>, name: Seq<char>, i: int) -> bool {
    &&& 0 <= i < ps.len()
    &&& ps[i].name == name
    &&& forall|j: int| 0 <= j < i ==> ps[j].name != name
}

/// Some package of `ps` is named `name`.
pub open spec fn has_named(ps: Seq<PackageModel>, name: Seq<char>) -> bool {
    exists|i: int| 0 <= i < ps.len() && ps[i].name == name
}

/// `update` is out of date against `ps`: the first package of the same name
/// has another checksum, or there is none.
pub open spec fn out_of_date_model(ps: Seq<PackageModel>, update: PackageModel) -> bool {
    forall|i: int| first_named(ps, update.name, i) ==> ps[i].checksum != update.checksum
}

/// `ps` with `p` recorded: in place of the first package of the same name, or
/// at the end when there is none.
pub open spec fn updated(ps: Seq<PackageModel>, p: PackageModel) -> Seq<PackageModel> {
    if has_named(ps, p.name) {
        ps.update(choose|i: int| first_named(ps, p.name, i), p)
    } else {
        ps.push(p)
    }
}

/// No two packages of `ps` share a name.
pub open spec fn unique_names(ps: Seq<PackageModel>) -> bool {
    forall|i: int, j: int| 0 <= i < ps.len() && 0 <= j < ps.len() && i != j ==> ps[i].name != ps[j].name
}

proof fn lemma_first_named_exists(ps: Seq<PackageModel>, name: Seq<char>)
    requires
        has_named(ps, name),
    ensures
        exists|i: int| first_named(ps, name, i),
    decreases ps.len(),
{
    let k = choose|k: int| 0 <= k < ps.len() && ps[k].name == name;
    if ps[0].name == name {
        assert(first_named(ps, name, 0));
    } else {
        let rest = ps.drop_first();
        assert(rest[k - 1].name == name);
        lemma_first_named_exists(rest, name);
        let i = choose|i: int| first_named(rest, name, i);
        assert forall|j: int| 0 <= j < i + 1 implies ps[j].name != name by {
            if j > 0 {
                assert(ps[j] == rest[j - 1]);
            }
        }
        assert(first_named(ps, name, i + 1));
    }
}

proof fn lemma_first_named_unique(ps: Seq<PackageModel>, name: Seq<char>, i: int, k: int)
    requires
        first_named(ps, name, i),
        first_named(ps, name, k),
    ensures
        i == k,
{
}

impl Lockfile {
    /// Whether `update` differs from what is locked: true when the first locked
    /// package of its name has another checksum, or when none has its name.
    pub fn out_of_date(&self, update: Package) -> (r: bool)
        ensures
            r == out_of_date_model(self@, update@),
    {
        let n = self.package.len();
        let mut i: usize = 0;
        while i < n
            invariant
                n == self.package@.len(),
                i <= n,
                forall|j: int| 0 <= j < i ==> self@[j].name != update@.name,
            decreases n - i,
        {
            if self.package[i].name == update.name {
                assert(first_named(self@, update@.name, i as int));
                proof {
                    assert forall|k: int| first_named(self@, update@.name, k) implies k == i by {
                        lemma_first_named_unique(self@, update@.name, i as int, k);
                    }
                }
                return !(self.package[i].checksum == update.checksum);
            }
            i = i + 1;
        }
        true
    }

    /// Records `package`: it replaces the first locked package of the same name,
    /// or is appended when none has its name.
    pub fn update_pkg(&mut self, package: Package)
        ensures
            final(self)@ == updated(old(self)@, package@),
    {
        let n = self.package.len();
        let mut i: usize = 0;
        while i < n
            invariant
                n == self.package@.len(),
                i <= n,
                self@ == old(self)@,
                forall|j: int| 0 <= j < i ==> self@[j].name != package@.name,
            decreases n - i,
        {
            if self.package[i].name == package.name {
                proof {
                    assert(first_named(self@, package@.name, i as int));
                    assert(has_named(self@, package@.name));
                    let c = choose|c: int| first_named(self@, package@.name, c);
                    lemma_first_named_unique(self@, package@.name, i as int, c);
                }
                let ghost p = package@;
                self.package.set(i, package);
                assert(self@ =~= old(self)@.update(i as int, p));
                return;
            }
            i = i + 1;
        }
        let ghost p = package@;
        self.package.push(package);
        assert(self@ =~= old(self)@.push(p));
    }
}

/// After a package is recorded, it is no longer out of date.
pub proof fn lemma_recorded_is_current(ps: Seq<PackageModel>, p: PackageModel)
    ensures
        !out_of_date_model(updated(ps, p), p),
{
    let qs = updated(ps, p);
    if has_named(ps, p.name) {
        lemma_first_named_exists(ps, p.name);
        let i = choose|i: int| first_named(ps, p.name, i);
        assert(first_named(qs, p.name, i));
    } else {
        assert(first_named(qs, p.name, ps.len() as int));
    }
}

/// Recording the same package twice leaves the lock as recording it once.
pub proof fn lemma_update_idempotent(ps: Seq<PackageModel>, p: PackageModel)
    ensures
        updated(updated(ps, p), p) == updated(ps, p),
{
    let qs = updated(ps, p);
    if has_named(ps, p.name) {
        lemma_first_named_exists(ps, p.name);
        let i = choose|i: int| first_named(ps, p.name, i);
        assert(first_named(qs, p.name, i));
        assert(has_named(qs, p.name));
        let k = choose|k: int| first_named(qs, p.name, k);
        lemma_first_named_unique(qs, p.name, i, k);
        assert(updated(qs, p) =~= qs);
    } else {
        let i = ps.len() as int;
        assert(first_named(qs, p.name, i));
        assert(has_named(qs, p.name));
        let k = choose|k: int| first_named(qs, p.name, k);
        lemma_first_named_unique(qs, p.name, i, k);
        assert(updated(qs, p) =~= qs);
    }
}

/// Recording a package keeps the names of a lock distinct, and changes only the
/// entry of its own name: every other entry stays, in its place.
pub proof fn lemma_update_keeps_others(ps: Seq<PackageModel>, p: PackageModel)
    ensures
        unique_names(ps) ==> unique_names(updated(ps, p)),
        forall|j: int| 0 <= j < ps.len() && ps[j].name != p.name ==> #[trigger] updated(ps, p)[j]
            == ps[j],
        updated(ps, p).len() == if has_named(ps, p.name) { ps.len() } else { ps.len() + 1 },
{
    if has_named(ps, p.name) {
        lemma_first_named_exists(ps, p.name);
    }
}

/// A package whose name is not locked is out of date.
pub proof fn lemma_unknown_is_out_of_date(ps: Seq<PackageModel>, p: PackageModel)
    requires
        !has_named(ps, p.name),
    ensures
        out_of_date_model(ps, p),
{
}

} // verus!
