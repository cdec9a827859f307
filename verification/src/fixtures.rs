//! The registry of setup and teardown fixtures, keyed by module path.
//!
//! The registry does not hold the fixture functions themselves. A fixture is
//! known to it by a number that the host chose; the registry says which
//! fixtures run around a test of a module, and in which order.
use vstd::prelude::*;
use vstd::string::*;

verus! {

/// The fixtures registered for one module, in the order of registration.
#[derive(Debug)]
pub struct ModuleFixtures {
    pub module_name: String,
    pub fixtures: Vec<usize>,
}

/// The fixtures to run around one test.
#[derive(Debug)]
pub struct FixturePlan {
    /// The fixtures to run before the test, first to last.
    pub setup: Vec<usize>,
    /// The fixtures to run after the test, whether it panicked or not.
    pub teardown: Vec<usize>,
}

/// The registry of fixtures, shared by the threads of a process.
#[derive(Debug)]
pub struct FixtureRegistry {
    setup: Vec<ModuleFixtures>,
    teardown: Vec<ModuleFixtures>,
}

/// The mark that a thread carries while it runs a test with fixtures.
#[derive(Debug)]
pub struct FixtureScope {
    /// Whether a fixture test is running on the thread
    pub in_fixture_test: bool,
}

/// The fixtures that the first entry for `path` lists; none where there is
/// no entry for it.
pub open spec fn listed(entries: Seq<ModuleFixtures>, path: Seq<char>) -> Seq<usize>
    decreases entries.len(),
{
    if entries.len() == 0 {
        Seq::empty()
    } else if entries[0].module_name@ == path {
        entries[0].fixtures@
    } else {
        listed(entries.drop_first(), path)
    }
}

/// No entry has the path `path`.
pub open spec fn unlisted(entries: Seq<ModuleFixtures>, path: Seq<char>) -> bool {
    forall|i: int| 0 <= i < entries.len() ==> (#[trigger] entries[i]).module_name@ != path
}

/// Nothing is listed for a path that no entry has.
proof fn lemma_listed_absent(entries: Seq<ModuleFixtures>, path: Seq<char>)
    requires
        unlisted(entries, path),
    ensures
        listed(entries, path) == Seq::<usize>::empty(),
    decreases entries.len(),
{
    if entries.len() > 0 {
        assert forall|i: int| 0 <= i < entries.drop_first().len() implies (
        #[trigger] entries.drop_first()[i]).module_name@ != path by {}
        lemma_listed_absent(entries.drop_first(), path);
    }
}

/// A new last entry is listed for its path where no earlier entry has that
/// path, and changes nothing else.
proof fn lemma_listed_push(entries: Seq<ModuleFixtures>, entry: ModuleFixtures, path: Seq<char>)
    ensures
        listed(entries.push(entry), path) == if unlisted(entries, path) && entry.module_name@
            == path {
            entry.fixtures@
        } else {
            listed(entries, path)
        },
    decreases entries.len(),
{
    let extended = entries.push(entry);
    if entries.len() == 0 {
        assert(listed(extended.drop_first(), path) == Seq::<usize>::empty());
    } else {
        assert(extended.drop_first() =~= entries.drop_first().push(entry));
        if entries[0].module_name@ == path {
        } else {
            lemma_listed_push(entries.drop_first(), entry, path);
            if unlisted(entries, path) {
                assert forall|i: int| 0 <= i < entries.drop_first().len() implies (
                #[trigger] entries.drop_first()[i]).module_name@ != path by {}
            } else {
                let i = choose|i: int|
                    0 <= i < entries.len() && (#[trigger] entries[i]).module_name@ == path;
                assert(entries.drop_first()[i - 1].module_name@ == path);
            }
        }
    }
}

/// Replacing the entry at `at` changes what is listed for its path, where it
/// is the first entry for that path, and nothing else.
proof fn lemma_listed_update(
    entries: Seq<ModuleFixtures>,
    at: int,
    entry: ModuleFixtures,
    path: Seq<char>,
)
    requires
        0 <= at < entries.len(),
        entry.module_name@ == entries[at].module_name@,
        forall|i: int| 0 <= i < at ==> (#[trigger] entries[i]).module_name@ != entry.module_name@,
    ensures
        listed(entries.update(at, entry), path) == if path == entry.module_name@ {
            entry.fixtures@
        } else {
            listed(entries, path)
        },
    decreases entries.len(),
{
    let updated = entries.update(at, entry);
    if at == 0 {
        assert(updated.drop_first() =~= entries.drop_first());
    } else {
        assert(updated.drop_first() =~= entries.drop_first().update(at - 1, entry));
        assert forall|i: int| 0 <= i < at - 1 implies (#[trigger] entries.drop_first()[i]).module_name@
            != entry.module_name@ by {}
        lemma_listed_update(entries.drop_first(), at - 1, entry, path);
    }
}

/// Add `fixture` to the entry for `module_name`, or start one.
fn add_fixture(entries: &mut Vec<ModuleFixtures>, module_name: &str, fixture: usize)
    ensures
        forall|path: Seq<char>|
            #[trigger] listed(final(entries)@, path) == if path == module_name@ {
                listed(old(entries)@, path).push(fixture)
            } else {
                listed(old(entries)@, path)
            },
{
    let mut i: usize = 0;
    while i < entries.len()
        invariant
            i <= entries.len(),
            entries@ == old(entries)@,
            forall|j: int| 0 <= j < i ==> (#[trigger] entries@[j]).module_name@ != module_name@,
        decreases entries.len() - i,
    {
        if entries[i].module_name.as_str().eq(module_name) {
            let mut fixtures = entries[i].fixtures.clone();
            fixtures.push(fixture);
            let entry = ModuleFixtures { module_name: String::from_str(module_name), fixtures };
            proof {
                lemma_listed_update(old(entries)@, i as int, entry, module_name@);
                assert forall|path: Seq<char>|
                    #[trigger] listed(old(entries)@.update(i as int, entry), path) == if path
                        == module_name@ {
                        listed(old(entries)@, path).push(fixture)
                    } else {
                        listed(old(entries)@, path)
                    } by {
                    lemma_listed_update(old(entries)@, i as int, entry, path);
                    lemma_listed_first(old(entries)@, i as int);
                }
            }
            entries.set(i, entry);
            return ;
        }
        i = i + 1;
    }
    let mut fixtures: Vec<usize> = Vec::new();
    fixtures.push(fixture);
    let entry = ModuleFixtures { module_name: String::from_str(module_name), fixtures };
    proof {
        lemma_listed_absent(old(entries)@, module_name@);
        assert forall|path: Seq<char>|
            #[trigger] listed(old(entries)@.push(entry), path) == if path == module_name@ {
                listed(old(entries)@, path).push(fixture)
            } else {
                listed(old(entries)@, path)
            } by {
            lemma_listed_push(old(entries)@, entry, path);
        }
    }
    entries.push(entry);
}

/// What is listed for the path of an entry that is the first with its path
/// is what that entry holds.
proof fn lemma_listed_first(entries: Seq<ModuleFixtures>, at: int)
    requires
        0 <= at < entries.len(),
        forall|i: int| 0 <= i < at ==> (#[trigger] entries[i]).module_name@ != entries[at].module_name@,
    ensures
        listed(entries, entries[at].module_name@) == entries[at].fixtures@,
    decreases entries.len(),
{
    if at > 0 {
        assert forall|i: int| 0 <= i < at - 1 implies (#[trigger] entries.drop_first()[i]).module_name@
            != entries.drop_first()[at - 1].module_name@ by {}
        lemma_listed_first(entries.drop_first(), at - 1);
    }
}

/// The fixtures listed for `module_name`.
fn find_fixtures(entries: &Vec<ModuleFixtures>, module_name: &str) -> (r: Vec<usize>)
    ensures
        r@ == listed(entries@, module_name@),
{
    let mut i: usize = 0;
    while i < entries.len()
        invariant
            i <= entries.len(),
            forall|j: int| 0 <= j < i ==> (#[trigger] entries@[j]).module_name@ != module_name@,
        decreases entries.len() - i,
    {
        if entries[i].module_name.as_str().eq(module_name) {
            proof {
                lemma_listed_first(entries@, i as int);
            }
            return entries[i].fixtures.clone();
        }
        i = i + 1;
    }
    proof {
        lemma_listed_absent(entries@, module_name@);
    }
    Vec::new()
}

impl FixtureRegistry {
    /// The setup fixtures registered for a module, in the order of
    /// registration.
    pub closed spec fn setup_for(&self, path: Seq<char>) -> Seq<usize> {
        listed(self.setup@, path)
    }

    /// The teardown fixtures registered for a module, in the order of
    /// registration.
    pub closed spec fn teardown_for(&self, path: Seq<char>) -> Seq<usize> {
        listed(self.teardown@, path)
    }

    /// A registry without fixtures.
    pub fn new() -> (r: Self)
        ensures
            forall|path: Seq<char>| #[trigger] r.setup_for(path) == Seq::<usize>::empty(),
            forall|path: Seq<char>| #[trigger] r.teardown_for(path) == Seq::<usize>::empty(),
    {
        FixtureRegistry { setup: Vec::new(), teardown: Vec::new() }
    }
}

impl FixtureScope {
    /// The mark of a thread on which no fixture test is running.
    pub fn new() -> (r: Self)
        ensures
            !r.in_fixture_test,
    {
        FixtureScope { in_fixture_test: false }
    }

    /// The test is over: no fixture test is running any more.
    pub fn finish_test(&mut self)
        ensures
            !final(self).in_fixture_test,
    {
        self.in_fixture_test = false;
    }
}

/// Register a setup function for a module.
pub fn register_setup(registry: &mut FixtureRegistry, module_name: &str, fixture: usize)
    ensures
        forall|path: Seq<char>|
            #[trigger] final(registry).setup_for(path) == if path == module_name@ {
                old(registry).setup_for(path).push(fixture)
            } else {
                old(registry).setup_for(path)
            },
        forall|path: Seq<char>|
            #[trigger] final(registry).teardown_for(path) == old(registry).teardown_for(path),
{
    add_fixture(&mut registry.setup, module_name, fixture);
}

/// Register a teardown function for a module.
pub fn register_teardown(registry: &mut FixtureRegistry, module_name: &str, fixture: usize)
    ensures
        forall|path: Seq<char>|
            #[trigger] final(registry).teardown_for(path) == if path == module_name@ {
                old(registry).teardown_for(path).push(fixture)
            } else {
                old(registry).teardown_for(path)
            },
        forall|path: Seq<char>|
            #[trigger] final(registry).setup_for(path) == old(registry).setup_for(path),
{
    add_fixture(&mut registry.teardown, module_name, fixture);
}

/// Start a test of a module with its fixtures: a fixture test is running on
/// the thread from now on, and the plan lists the module's setup fixtures,
/// to run before the test, and its teardown fixtures, to run after it.
pub fn run_test_with_fixtures(
    registry: &FixtureRegistry,
    scope: &mut FixtureScope,
    module_name: &str,
) -> (plan: FixturePlan)
    ensures
        final(scope).in_fixture_test,
        plan.setup@ == registry.setup_for(module_name@),
        plan.teardown@ == registry.teardown_for(module_name@),
{
    scope.in_fixture_test = true;
    FixturePlan {
        setup: find_fixtures(&registry.setup, module_name),
        teardown: find_fixtures(&registry.teardown, module_name),
    }
}

/// Check if we're running inside a fixture-wrapped test.
pub fn is_in_fixture_test(scope: &FixtureScope) -> (r: bool)
    ensures
        r == scope.in_fixture_test,
{
    scope.in_fixture_test
}

} // verus!
