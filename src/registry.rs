//! The dispatch registry: the enabled addons, with unique keywords, and the
//! routing of an argument vector to the addon that its first word selects.

use vstd::prelude::*;
use crate::command::{help_page, str_eq, strings_view, MyToolsAddon, MyToolsAddonCommand, ParseOutcome};
use crate::error::MyToolsError;

verus! {

/// The keyword that no addon may take.
pub open spec fn reserved_keyword() -> Seq<char> {
    "help"@
}

/// No addon takes the reserved keyword, and no two addons share one.
pub open spec fn keywords_unique<A: MyToolsAddon>(addons: Seq<A>) -> bool {
    &&& forall|i: int| 0 <= i < addons.len() ==> #[trigger] addons[i].keyword() != reserved_keyword()
    &&& forall|i: int, j: int|
        0 <= i < j < addons.len() ==> #[trigger] addons[i].keyword() != #[trigger] addons[j].keyword()
}

/// The index of the first addon of `addons` from `from` on whose keyword is
/// `k`, or -1.
pub open spec fn find_addon<A: MyToolsAddon>(addons: Seq<A>, k: Seq<char>, from: int) -> int
    decreases addons.len() - from,
{
    if from < 0 || from >= addons.len() {
        -1
    } else if addons[from].keyword() == k {
        from
    } else {
        find_addon(addons, k, from + 1)
    }
}

/// Checks that no addon takes the reserved keyword `help` and that no two
/// addons share a keyword; on failure, returns the first keyword that is
/// already taken.
pub fn check_keyword_uniqueness<A: MyToolsAddon>(addons: &Vec<A>) -> (r: Result<(), String>)
    ensures
        r is Ok <==> keywords_unique(addons@),
        r matches Err(k) ==> exists|j: int|
            0 <= j < addons@.len() && #[trigger] addons@[j].keyword() == k@ && keywords_unique(
                addons@.take(j),
            ) && (k@ == reserved_keyword() || exists|i: int|
                0 <= i < j && #[trigger] addons@[i].keyword() == k@),
{
    let mut keywords: Vec<&'static str> = Vec::new();
    keywords.push("help");
    let mut j: usize = 0;
    while j < addons.len()
        invariant
            j <= addons@.len(),
            keywords@.len() == j + 1,
            keywords@[0]@ == reserved_keyword(),
            forall|i: int| 0 <= i < j ==> #[trigger] keywords@[i + 1]@ == addons@[i].keyword(),
            keywords_unique(addons@.take(j as int)),
        decreases addons@.len() - j,
    {
        let keyword = addons[j].get_keyword();
        let mut t: usize = 0;
        while t < keywords.len()
            invariant
                j < addons@.len(),
                keywords@.len() == j + 1,
                keywords@[0]@ == reserved_keyword(),
                forall|i: int| 0 <= i < j ==> #[trigger] keywords@[i + 1]@ == addons@[i].keyword(),
                keywords_unique(addons@.take(j as int)),
                keyword@ == addons@[j as int].keyword(),
                t <= keywords@.len(),
                forall|u: int| 0 <= u < t ==> keywords@[u]@ != keyword@,
            decreases keywords@.len() - t,
        {
            if str_eq(keywords[t], keyword) {
                proof {
                    if t == 0 {
                        assert(addons@[j as int].keyword() == reserved_keyword());
                    } else {
                        assert(keywords@[(t - 1) + 1]@ == addons@[t - 1].keyword());
                    }
                }
                return Err(String::from_str(keyword));
            }
            t = t + 1;
        }
        proof {
            let s = addons@.take(j + 1);
            assert forall|i: int| 0 <= i < j implies addons@[i].keyword() != keyword@ by {
                assert(keywords@[i + 1]@ == addons@[i].keyword());
            }
            assert(keywords@[0]@ != keyword@);
            assert forall|a: int, b: int| 0 <= a < b < s.len() implies #[trigger] s[a].keyword()
                != #[trigger] s[b].keyword() by {
                if b < j {
                    assert(addons@.take(j as int)[a] == s[a]);
                    assert(addons@.take(j as int)[b] == s[b]);
                }
            }
            assert forall|a: int| 0 <= a < s.len() implies #[trigger] s[a].keyword()
                != reserved_keyword() by {
                if a < j {
                    assert(addons@.take(j as int)[a] == s[a]);
                }
            }
        }
        keywords.push(keyword);
        j = j + 1;
    }
    assert(addons@.take(addons@.len() as int) =~= addons@);
    Ok(())
}


/// What a dispatch that was not refused produced.
pub enum Dispatched {
    /// The command ran and printed this line.
    Output(String),
    /// The selected addon was asked for its help page, which this is.
    HelpRequested(String),
}

/// `r` is what the dispatch gives once `addon` parsed its arguments into
/// `p`: a parse error unchanged, the addon's help page, or what running the
/// command gives, its error unchanged.
pub open spec fn dispatched_from<A: MyToolsAddon>(
    addon: A,
    p: Result<ParseOutcome<A::Command>, MyToolsError>,
    r: Result<Dispatched, MyToolsError>,
) -> bool {
    match p {
        Err(e) => r == Err::<Dispatched, MyToolsError>(e),
        Ok(ParseOutcome::HelpRequested) => r matches Ok(Dispatched::HelpRequested(h)) && h@
            == help_page(addon.keyword(), addon.commands()),
        Ok(ParseOutcome::Command(c)) => exists|x: Result<String, MyToolsError>|
            #[trigger] c.executes_to(x) && match x {
                Ok(s) => r == Ok::<Dispatched, MyToolsError>(Dispatched::Output(s)),
                Err(e) => r == Err::<Dispatched, MyToolsError>(e),
            },
    }
}

/// What dispatching `args` to `addons` gives: `AddonNotFound` where no
/// addon has the keyword `args[0]`, and otherwise what the first addon with
/// that keyword makes of the remaining arguments.
pub open spec fn dispatch_result<A: MyToolsAddon>(
    addons: Seq<A>,
    args: Seq<Seq<char>>,
    r: Result<Dispatched, MyToolsError>,
) -> bool {
    let i = find_addon(addons, args[0], 0);
    if i < 0 {
        r matches Err(MyToolsError::AddonNotFound(m)) && m@ == "Addon '"@ + args[0]
            + "' not found"@
    } else {
        exists|p: Result<ParseOutcome<A::Command>, MyToolsError>|
            #[trigger] addons[i].parses_to(args.skip(1), p) && dispatched_from(addons[i], p, r)
    }
}

/// Routes `args` to the addon that `args[0]` selects, parses the remaining
/// arguments with it and runs the command it gives.
pub fn call_addon<A: MyToolsAddon>(args: &Vec<String>, addons: &Vec<A>) -> (r: Result<
    Dispatched,
    MyToolsError,
>)
    requires
        args@.len() >= 1,
    ensures
        dispatch_result(addons@, strings_view(args@), r),
{
    let ghost v = strings_view(args@);
    let keyword = args[0].as_str();
    assert(keyword@ == v[0]);
    let mut i: usize = 0;
    while i < addons.len()
        invariant
            v.len() == args@.len() >= 1,
            i <= addons@.len(),
            find_addon(addons@, v[0], 0) == find_addon(addons@, v[0], i as int),
            keyword@ == v[0],
        ensures
            i <= addons@.len(),
            find_addon(addons@, v[0], 0) == find_addon(addons@, v[0], i as int),
            i < addons@.len() ==> addons@[i as int].keyword() == v[0],
        decreases addons@.len() - i,
    {
        if str_eq(addons[i].get_keyword(), keyword) {
            break;
        }
        i = i + 1;
    }
    if i == addons.len() {
        let msg = String::from_str("Addon '").concat(keyword).concat("' not found");
        return Err(MyToolsError::AddonNotFound(msg));
    }
    let mut rest: Vec<String> = Vec::new();
    let mut t: usize = 1;
    while t < args.len()
        invariant
            1 <= t <= args@.len(),
            v == strings_view(args@),
            strings_view(rest@) =~= v.subrange(1, t as int),
        decreases args@.len() - t,
    {
        let ghost before = rest@;
        rest.push(args[t].clone());
        proof {
            assert(strings_view(rest@) =~= strings_view(before).push(args@[t as int]@));
            assert(v.subrange(1, t + 1) =~= v.subrange(1, t as int).push(v[t as int]));
        }
        t = t + 1;
    }
    assert(v.subrange(1, v.len() as int) =~= v.skip(1));
    let parsed = addons[i].parse(rest.as_slice());
    assert(find_addon(addons@, v[0], 0) == i);
    assert(addons@[i as int].parses_to(v.skip(1), parsed));
    match parsed {
        Err(e) => Err(e),
        Ok(ParseOutcome::HelpRequested) => Ok(Dispatched::HelpRequested(addons[i].get_help())),
        Ok(ParseOutcome::Command(c)) => {
            let x = c.execute();
            let r = match x {
                Ok(s) => Ok(Dispatched::Output(s)),
                Err(e) => Err(e),
            };
            proof {
                assert(c.executes_to(x));
            }
            r
        },
    }
}

/// The enabled addons, checked once for keyword uniqueness.
pub struct Registry<A: MyToolsAddon> {
    addons: Vec<A>,
}

impl<A: MyToolsAddon> Registry<A> {
    /// Every registry holds addons with unique keywords.
    #[verifier::type_invariant]
    spec fn inv(&self) -> bool {
        keywords_unique(self.addons@)
    }

    /// The enabled addons, in the order they were given.
    pub closed spec fn addons(&self) -> Seq<A> {
        self.addons@
    }

    /// Builds the registry; refused, with a keyword that is already taken,
    /// where an addon takes the reserved keyword `help` or two addons share
    /// a keyword.
    pub fn new(addons: Vec<A>) -> (r: Result<Registry<A>, String>)
        ensures
            r is Ok <==> keywords_unique(addons@),
            r matches Ok(reg) ==> reg.addons() == addons@,
            r matches Err(k) ==> exists|j: int|
                0 <= j < addons@.len() && #[trigger] addons@[j].keyword() == k@ && keywords_unique(
                    addons@.take(j),
                ) && (k@ == reserved_keyword() || exists|i: int|
                    0 <= i < j && #[trigger] addons@[i].keyword() == k@),
    {
        match check_keyword_uniqueness(&addons) {
            Ok(()) => Ok(Registry { addons }),
            Err(k) => Err(k),
        }
    }

    /// The enabled addons, in the order they were given.
    pub fn addon_list(&self) -> (r: &Vec<A>)
        ensures
            r@ == self.addons(),
    {
        &self.addons
    }

    /// Routes `args` to the addon that `args[0]` selects; see `call_addon`.
    /// A dispatch only ever happens among addons with unique keywords, none
    /// of them `help`.
    pub fn dispatch(&self, args: &Vec<String>) -> (r: Result<Dispatched, MyToolsError>)
        requires
            args@.len() >= 1,
        ensures
            keywords_unique(self.addons()),
            dispatch_result(self.addons(), strings_view(args@), r),
    {
        proof {
            use_type_invariant(self);
        }
        call_addon(args, &self.addons)
    }
}


proof fn lemma_find_addon<A: MyToolsAddon>(addons: Seq<A>, k: Seq<char>, from: int)
    requires
        0 <= from,
    ensures
        find_addon(addons, k, from) >= 0 ==> from <= find_addon(addons, k, from) < addons.len()
            && addons[find_addon(addons, k, from)].keyword() == k,
        find_addon(addons, k, from) < 0 ==> forall|j: int|
            from <= j < addons.len() ==> #[trigger] addons[j].keyword() != k,
    decreases addons.len() - from,
{
    if from < addons.len() && addons[from].keyword() != k {
        lemma_find_addon(addons, k, from + 1);
    }
}

/// Dispatch does not depend on the order of the addons: two registries that
/// hold the same addons, each with unique keywords, give the same results.
pub proof fn lemma_dispatch_order_independent<A: MyToolsAddon>(
    s1: Seq<A>,
    s2: Seq<A>,
    args: Seq<Seq<char>>,
    r: Result<Dispatched, MyToolsError>,
)
    requires
        keywords_unique(s1),
        keywords_unique(s2),
        forall|a: A| s1.contains(a) <==> s2.contains(a),
        args.len() >= 1,
    ensures
        dispatch_result(s1, args, r) <==> dispatch_result(s2, args, r),
{
    let k = args[0];
    let i1 = find_addon(s1, k, 0);
    let i2 = find_addon(s2, k, 0);
    lemma_find_addon(s1, k, 0);
    lemma_find_addon(s2, k, 0);
    if i1 >= 0 {
        assert(s1.contains(s1[i1]));
        let j = choose|j: int| 0 <= j < s2.len() && s2[j] == s1[i1];
        assert(s2[j].keyword() == k);
        assert(i2 >= 0);
        if j != i2 {
            if j < i2 {
                assert(s2[j].keyword() != s2[i2].keyword());
            } else {
                assert(s2[i2].keyword() != s2[j].keyword());
            }
        }
        assert(s1[i1] == s2[i2]);
    } else if i2 >= 0 {
        assert(s2.contains(s2[i2]));
        let j = choose|j: int| 0 <= j < s1.len() && s1[j] == s2[i2];
        assert(s1[j].keyword() == k);
    }
}

} // verus!
