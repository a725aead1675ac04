//! Resolution of inheritance: a manifest that names a parent is merged onto
//! the resolved parent, and a chain that comes back to an identifier it has
//! already passed is refused.
//!
//! The parent of a manifest may have to be read or fetched, which this
//! library does not do. [`Resolution`] therefore holds the chain found so
//! far and says what is needed next; [`resolve_with`] runs it against
//! manifests that are already at hand.

use vstd::prelude::*;
use vstd::set_lib::{lemma_int_range, lemma_len_subset, set_int_range};
use crate::argument::{Argument, ArgumentView};
use crate::manifest::{ArgumentsView, Arguments, ManifestView, VersionManifest};
use crate::model::{lemma_view_seq_add, lemma_view_seq_eq, lemma_view_seq_push, view_seq};
use crate::text::{from_chars, push_str};
use crate::version::{version_text, MCVersion, MCVersionView};

verus! {

/// The child's value where it has one, the parent's where it has none.
pub open spec fn overridden<T>(parent: Option<T>, child: Option<T>) -> Option<T> {
    match child {
        Some(_) => child,
        None => parent,
    }
}

/// The arguments of one phase after a merge: the parent's, then the
/// child's.
pub open spec fn merged_list(
    parent: Option<Seq<ArgumentView>>,
    child: Option<Seq<ArgumentView>>,
) -> Option<Seq<ArgumentView>> {
    match child {
        Some(added) => match parent {
            Some(base) => Some(base + added),
            None => Some(added),
        },
        None => parent,
    }
}

/// The manifest of `child` merged onto its resolved `parent`.
///
/// The result carries the child's identifier, classification and times, and
/// names no parent. Main class, assets, asset index, `jar`, Java runtime
/// and the legacy argument string are the child's where it has them. The
/// child's libraries come first, then the parent's. Arguments of each phase
/// and compatibility rules are the parent's followed by the child's.
/// Everything else is the parent's.
pub open spec fn merged(parent: ManifestView, child: ManifestView) -> ManifestView {
    ManifestView {
        arguments: ArgumentsView {
            game: merged_list(parent.arguments.game, child.arguments.game),
            jvm: merged_list(parent.arguments.jvm, child.arguments.jvm),
        },
        minecraft_arguments: overridden(parent.minecraft_arguments, child.minecraft_arguments),
        asset_index: overridden(parent.asset_index, child.asset_index),
        assets: overridden(parent.assets, child.assets),
        compatibility_rules: parent.compatibility_rules + child.compatibility_rules,
        compliance_level: parent.compliance_level,
        downloads: parent.downloads,
        id: child.id,
        inherits_from: None,
        java_version: overridden(parent.java_version, child.java_version),
        libraries: child.libraries + parent.libraries,
        logging: parent.logging,
        main_class: overridden(parent.main_class, child.main_class),
        jar: overridden(parent.jar, child.jar),
        minimum_launcher_version: parent.minimum_launcher_version,
        release_time: child.release_time,
        updated_time: child.updated_time,
        release_type: child.release_type,
    }
}

/// The manifest that a chain flattens to. The first manifest of the chain
/// is the one asked for, each next one is the parent of the one before, and
/// the last one names no parent.
pub open spec fn flattened(chain: Seq<ManifestView>) -> ManifestView
    decreases chain.len(),
{
    if chain.len() <= 1 {
        chain[0]
    } else {
        merged(flattened(chain.skip(1)), chain[0])
    }
}

/// The identifiers of the manifests of a chain.
pub open spec fn ids(chain: Seq<ManifestView>) -> Seq<MCVersionView> {
    chain.map_values(|manifest: ManifestView| manifest.id)
}

/// The identifiers that have been passed when the last manifest of a chain
/// is looked at: those of `seen`, then those of the manifests before it.
pub open spec fn passed(seen: Seq<MCVersionView>, chain: Seq<ManifestView>) -> Seq<MCVersionView> {
    seen + ids(chain.drop_last())
}

/// Whether the identifier of the last manifest of a chain has been passed.
pub open spec fn repeats(seen: Seq<MCVersionView>, chain: Seq<ManifestView>) -> bool {
    passed(seen, chain).contains(chain.last().id)
}

/// What a resolution asks for or gives.
pub enum StepView {
    /// The manifest of this version is needed.
    NeedParent(MCVersionView),
    /// The resolved manifest.
    Done(ManifestView),
    /// The chain of identifiers came back to one it had passed.
    Circular(Seq<MCVersionView>),
}

/// What follows from a chain that is not empty, where the identifiers of
/// `seen` were passed before it began: the flattened manifest where the
/// last manifest names no parent; a failure where it names one and its
/// identifier has been passed; and otherwise the request for its parent.
pub open spec fn decision(seen: Seq<MCVersionView>, chain: Seq<ManifestView>) -> StepView {
    let last = chain.last();
    if last.inherits_from is None {
        StepView::Done(flattened(chain))
    } else if repeats(seen, chain) {
        StepView::Circular(seen + ids(chain))
    } else {
        StepView::NeedParent(last.inherits_from->0)
    }
}

/// Why a manifest could not be resolved.
#[derive(Debug)]
pub enum ResolveError {
    /// The identifiers passed, in order; the last is the one that occurred
    /// before.
    CircularDependency(Vec<MCVersion>),
    /// No manifest of this version was at hand.
    VersionNotFound(MCVersion),
}

/// The mathematical value of a [`ResolveError`].
pub enum ResolveErrorView {
    CircularDependency(Seq<MCVersionView>),
    VersionNotFound(MCVersionView),
}

impl View for ResolveError {
    type V = ResolveErrorView;

    open spec fn view(&self) -> ResolveErrorView {
        match *self {
            ResolveError::CircularDependency(trace) => ResolveErrorView::CircularDependency(
                view_seq(trace@),
            ),
            ResolveError::VersionNotFound(id) => ResolveErrorView::VersionNotFound(id@),
        }
    }
}

/// The identifiers joined by arrows.
pub open spec fn arrows(trace: Seq<MCVersionView>) -> Seq<char>
    decreases trace.len(),
{
    if trace.len() == 0 {
        Seq::<char>::empty()
    } else {
        arrows(trace.drop_last()) + version_text(trace.last()) + " -> "@
    }
}

/// The message of an error.
pub open spec fn error_message(error: ResolveErrorView) -> Seq<char> {
    match error {
        ResolveErrorView::CircularDependency(trace) => if trace.len() == 0 {
            "Circular dependency detected!"@
        } else {
            "Circular dependency detected! "@ + arrows(trace.drop_last()) + seq!['[']
                + version_text(trace.last()) + seq![']']
        },
        ResolveErrorView::VersionNotFound(id) => "Version not found: "@ + version_text(id),
    }
}

impl ResolveError {
    /// The message of the error. A circular chain is written as the
    /// identifiers passed, joined by arrows, with the repeated one in
    /// brackets at the end.
    pub fn to_string(&self) -> (message: String)
        ensures
            message@ == error_message(self@),
    {
        match self {
            ResolveError::CircularDependency(trace) => {
                if trace.len() == 0 {
                    return "Circular dependency detected!".to_owned();
                }
                let mut out: Vec<char> = Vec::new();
                push_str(&mut out, "Circular dependency detected! ");
                let ghost head = out@;
                let ghost views = view_seq(trace@);
                let mut i: usize = 0;
                while i < trace.len() - 1
                    invariant
                        trace.len() > 0,
                        i <= trace.len() - 1,
                        views == view_seq(trace@),
                        out@ == head + arrows(views.drop_last().take(i as int)),
                    decreases trace.len() - 1 - i,
                {
                    let text = trace[i].to_string();
                    let ghost prefix = views.drop_last().take(i + 1);
                    assert(prefix.drop_last() =~= views.drop_last().take(i as int));
                    assert(prefix.last() == trace@[i as int]@);
                    push_str(&mut out, text.as_str());
                    push_str(&mut out, " -> ");
                    assert(out@ =~= head + arrows(prefix));
                    i += 1;
                }
                assert(views.drop_last().take(trace.len() - 1) =~= views.drop_last());
                out.push('[');
                let text = trace[trace.len() - 1].to_string();
                push_str(&mut out, text.as_str());
                out.push(']');
                assert(views.last() == trace@[trace.len() - 1]@);
                assert(out@ =~= error_message(self@));
                from_chars(out.as_slice())
            },
            ResolveError::VersionNotFound(id) => {
                let mut out: Vec<char> = Vec::new();
                push_str(&mut out, "Version not found: ");
                let text = id.to_string();
                push_str(&mut out, text.as_str());
                assert(out@ =~= error_message(self@));
                from_chars(out.as_slice())
            },
        }
    }
}

/// What a resolution asks for or gives.
#[derive(Debug)]
pub enum ResolveStep {
    /// The manifest of this version is needed: hand it to
    /// [`Resolution::supply`].
    NeedParent(MCVersion),
    /// The resolved manifest.
    Done(VersionManifest),
    /// The chain came back to an identifier that it had passed: the
    /// identifiers passed, in order, the last being the one that occurred
    /// before.
    Circular(Vec<MCVersion>),
}

impl View for ResolveStep {
    type V = StepView;

    open spec fn view(&self) -> StepView {
        match *self {
            ResolveStep::NeedParent(id) => StepView::NeedParent(id@),
            ResolveStep::Done(manifest) => StepView::Done(manifest@),
            ResolveStep::Circular(trace) => StepView::Circular(view_seq(trace@)),
        }
    }
}

fn merge_lists(parent: Option<Vec<Argument>>, child: &Option<Vec<Argument>>) -> (out: Option<
    Vec<Argument>,
>)
    ensures
        crate::manifest::view_list(out) == merged_list(
            crate::manifest::view_list(parent),
            crate::manifest::view_list(*child),
        ),
{
    match child {
        Some(added) => {
            let mut copied = added.clone();
            proof {
                lemma_view_seq_eq(copied@, added@);
            }
            match parent {
                Some(base) => {
                    let mut base = base;
                    proof {
                        lemma_view_seq_add(base@, copied@);
                    }
                    base.append(&mut copied);
                    Some(base)
                },
                None => Some(copied),
            }
        },
        None => parent,
    }
}

/// Merges the manifest `child` onto its resolved parent.
pub fn merge(parent: VersionManifest, child: &VersionManifest) -> (out: VersionManifest)
    ensures
        out@ == merged(parent@, child@),
{
    let mut out = parent;
    out.inherits_from = None;
    out.id = child.id.clone();
    out.updated_time = child.updated_time;
    out.release_time = child.release_time;
    out.release_type = child.release_type;
    if let Some(minecraft_arguments) = &child.minecraft_arguments {
        out.minecraft_arguments = Some(minecraft_arguments.clone());
    }
    if let Some(main_class) = &child.main_class {
        out.main_class = Some(main_class.clone());
    }
    if let Some(assets) = &child.assets {
        out.assets = Some(assets.clone());
    }
    if let Some(jar) = &child.jar {
        out.jar = Some(jar.clone());
    }
    if let Some(asset_index) = &child.asset_index {
        out.asset_index = Some(asset_index.clone());
    }
    if let Some(java_version) = &child.java_version {
        out.java_version = Some(java_version.clone());
    }
    let mut libraries = child.libraries.clone();
    proof {
        lemma_view_seq_eq(libraries@, child.libraries@);
        lemma_view_seq_add(libraries@, out.libraries@);
    }
    libraries.append(&mut out.libraries);
    out.libraries = libraries;
    let mut rules = child.compatibility_rules.clone();
    proof {
        lemma_view_seq_eq(rules@, child.compatibility_rules@);
        lemma_view_seq_add(out.compatibility_rules@, rules@);
    }
    out.compatibility_rules.append(&mut rules);
    let Arguments { game, jvm } = out.arguments;
    out.arguments = Arguments {
        game: merge_lists(game, &child.arguments.game),
        jvm: merge_lists(jvm, &child.arguments.jvm),
    };
    out
}

/// A resolution in progress: the identifiers passed before it began, the
/// manifest asked for and the parents found so far.
#[derive(Debug)]
pub struct Resolution {
    seen: Vec<MCVersion>,
    requested: VersionManifest,
    parents: Vec<VersionManifest>,
}

impl View for Resolution {
    type V = Seq<ManifestView>;

    closed spec fn view(&self) -> Seq<ManifestView> {
        seq![self.requested@] + view_seq(self.parents@)
    }
}

impl Resolution {
    /// The identifiers that were passed before the resolution began.
    pub closed spec fn seen(&self) -> Seq<MCVersionView> {
        view_seq(self.seen@)
    }

    /// Begins to resolve `manifest`, with no identifier passed.
    pub fn new(manifest: VersionManifest) -> (resolution: Self)
        ensures
            resolution@ == seq![manifest@],
            resolution.seen() == Seq::<MCVersionView>::empty(),
    {
        let resolution = Resolution { seen: Vec::new(), requested: manifest, parents: Vec::new() };
        assert(resolution@ =~= seq![manifest@]);
        assert(resolution.seen() =~= Seq::<MCVersionView>::empty());
        resolution
    }

    /// Begins to resolve `manifest` after the identifiers of `trace` have
    /// been passed.
    pub fn with_trace(manifest: VersionManifest, trace: Vec<MCVersion>) -> (resolution: Self)
        ensures
            resolution@ == seq![manifest@],
            resolution.seen() == view_seq(trace@),
    {
        let resolution = Resolution { seen: trace, requested: manifest, parents: Vec::new() };
        assert(resolution@ =~= seq![manifest@]);
        resolution
    }

    /// The last manifest of the chain.
    fn last(&self) -> (manifest: &VersionManifest)
        ensures
            manifest@ == self@.last(),
    {
        let n = self.parents.len();
        if n == 0 {
            &self.requested
        } else {
            assert(self@.last() == self.parents@[n - 1]@);
            &self.parents[n - 1]
        }
    }

    /// The manifest that the chain flattens to.
    fn flatten(&self) -> (out: VersionManifest)
        ensures
            out@ == flattened(self@),
    {
        let ghost views = self@;
        let n = self.parents.len();
        if n == 0 {
            return self.requested.clone();
        }
        let mut i: usize = n - 1;
        let mut out = self.parents[i].clone();
        assert(views.skip(n as int).len() == 1);
        assert(views.skip(n as int)[0] == self.parents@[i as int]@);
        while i > 0
            invariant
                i < n,
                n == self.parents@.len(),
                views == self@,
                out@ == flattened(views.skip(i + 1)),
            decreases i,
        {
            i -= 1;
            assert(views.skip(i + 1).skip(1) =~= views.skip(i + 2));
            assert(views.skip(i + 1)[0] == self.parents@[i as int]@);
            out = merge(out, &self.parents[i]);
        }
        assert(views.skip(0) =~= views);
        assert(views.skip(0).skip(1) =~= views.skip(1));
        merge(out, &self.requested)
    }

    /// The identifiers passed before the resolution began, then those of
    /// the manifests of the chain.
    fn trace(&self) -> (trace: Vec<MCVersion>)
        ensures
            view_seq(trace@) == self.seen() + ids(self@),
    {
        let ghost views = self@;
        let ghost seen = self.seen();
        let mut trace: Vec<MCVersion> = self.seen.clone();
        proof {
            lemma_view_seq_eq(trace@, self.seen@);
        }
        let first = self.requested.id.clone();
        proof {
            lemma_view_seq_push(trace@, first);
        }
        trace.push(first);
        assert(view_seq(trace@) =~= seen + ids(views).take(1));
        let mut k: usize = 0;
        while k < self.parents.len()
            invariant
                k <= self.parents.len(),
                views == self@,
                seen == self.seen(),
                view_seq(trace@) == seen + ids(views).take(k + 1),
            decreases self.parents.len() - k,
        {
            let id = self.parents[k].id.clone();
            proof {
                lemma_view_seq_push(trace@, id);
                assert(views[k + 1] == self.parents@[k as int]@);
                assert(ids(views).take(k + 2) =~= ids(views).take(k + 1).push(id@));
                assert(seen + ids(views).take(k + 2) =~= (seen + ids(views).take(k + 1)).push(id@));
            }
            trace.push(id);
            k += 1;
        }
        assert(ids(views).take(views.len() as int) =~= ids(views));
        trace
    }

    /// Whether the identifier of the last manifest has been passed.
    fn last_repeats(&self) -> (found: bool)
        ensures
            found == repeats(self.seen(), self@),
    {
        let ghost views = self@;
        let ghost seen = self.seen();
        let ghost earlier = ids(views.drop_last());
        let last = self.last();
        let mut j: usize = 0;
        while j < self.seen.len()
            invariant
                j <= self.seen.len(),
                views == self@,
                views.len() > 0,
                seen == self.seen(),
                last@ == views.last(),
                forall|k: int| 0 <= k < j ==> seen[k] != last@.id,
            decreases self.seen.len() - j,
        {
            assert(seen[j as int] == self.seen@[j as int]@);
            if self.seen[j] == last.id {
                assert(passed(seen, views)[j as int] == last@.id);
                return true;
            }
            j += 1;
        }
        let n = self.parents.len();
        if n == 0 {
            assert(earlier =~= Seq::<MCVersionView>::empty());
            assert(passed(seen, views) =~= seen);
            return false;
        }
        assert(earlier[0] == self.requested@.id);
        if self.requested.id == last.id {
            assert(passed(seen, views)[seen.len() as int] == last@.id);
            return true;
        }
        let mut i: usize = 0;
        while i < n - 1
            invariant
                n == self.parents@.len(),
                n > 0,
                i <= n - 1,
                views == self@,
                seen == self.seen(),
                earlier == ids(views.drop_last()),
                last@ == views.last(),
                forall|k: int| 0 <= k < i + 1 ==> earlier[k] != last@.id,
            decreases n - 1 - i,
        {
            assert(earlier[i + 1] == self.parents@[i as int]@.id);
            if self.parents[i].id == last.id {
                assert(passed(seen, views)[seen.len() + i + 1] == last@.id);
                return true;
            }
            i += 1;
        }
        assert(!passed(seen, views).contains(last@.id)) by {
            if passed(seen, views).contains(last@.id) {
                let w = choose|w: int|
                    0 <= w < passed(seen, views).len() && passed(seen, views)[w] == last@.id;
                if w < seen.len() {
                    assert(seen[w] == last@.id);
                } else {
                    assert(earlier[w - seen.len()] == last@.id);
                }
            }
        }
        false
    }

    /// What the chain found so far leads to.
    pub fn next(&self) -> (step: ResolveStep)
        ensures
            self@.len() > 0,
            step@ == decision(self.seen(), self@),
    {
        let last = self.last();
        match &last.inherits_from {
            None => ResolveStep::Done(self.flatten()),
            Some(parent) => {
                if self.last_repeats() {
                    ResolveStep::Circular(self.trace())
                } else {
                    ResolveStep::NeedParent(parent.clone())
                }
            },
        }
    }

    /// Adds the manifest of the parent that was asked for.
    pub fn supply(&mut self, parent: VersionManifest)
        ensures
            final(self)@ == old(self)@.push(parent@),
            final(self).seen() == old(self).seen(),
    {
        proof {
            lemma_view_seq_push(self.parents@, parent);
        }
        self.parents.push(parent);
        assert(self@ =~= old(self)@.push(parent@));
    }
}

/// The first manifest of `store` with the identifier `id`.
pub open spec fn lookup(store: Seq<ManifestView>, id: MCVersionView) -> Option<ManifestView>
    decreases store.len(),
{
    if store.len() == 0 {
        None
    } else if store[0].id == id {
        Some(store[0])
    } else {
        lookup(store.skip(1), id)
    }
}

/// Whether `chain` is what resolution passes through on the manifests of
/// `store` after the identifiers of `seen`: after each manifest but the
/// last, the parent was asked for and the next manifest is the one that the
/// store has for it.
pub open spec fn is_run(
    seen: Seq<MCVersionView>,
    chain: Seq<ManifestView>,
    store: Seq<ManifestView>,
) -> bool {
    &&& chain.len() > 0
    &&& forall|i: int|
        0 <= i < chain.len() - 1 ==> {
            &&& #[trigger] decision(seen, chain.take(i + 1)) is NeedParent
            &&& lookup(store, decision(seen, chain.take(i + 1))->NeedParent_0) == Some(
                chain[i + 1],
            )
        }
}

/// What the resolution gives at the end of the run `chain`, and `None`
/// where the run goes on.
pub open spec fn run_result(
    seen: Seq<MCVersionView>,
    chain: Seq<ManifestView>,
    store: Seq<ManifestView>,
) -> Option<Result<ManifestView, ResolveErrorView>> {
    match decision(seen, chain) {
        StepView::Done(resolved) => Some(Ok(resolved)),
        StepView::Circular(trace) => Some(Err(ResolveErrorView::CircularDependency(trace))),
        StepView::NeedParent(id) => if lookup(store, id) is None {
            Some(Err(ResolveErrorView::VersionNotFound(id)))
        } else {
            None
        },
    }
}

/// Whether resolving `manifest` on the manifests of `store`, after the
/// identifiers of `seen` have been passed, gives `result`: there is a run
/// that begins with `manifest` and ends in `result`.
pub open spec fn resolves_to(
    manifest: ManifestView,
    seen: Seq<MCVersionView>,
    store: Seq<ManifestView>,
    result: Result<ManifestView, ResolveErrorView>,
) -> bool {
    exists|chain: Seq<ManifestView>|
        #![trigger is_run(seen, chain, store)]
        is_run(seen, chain, store) && chain[0] == manifest && run_result(seen, chain, store)
            == Some(result)
}

/// The view of the result of a resolution.
pub open spec fn view_result(result: Result<VersionManifest, ResolveError>) -> Result<
    ManifestView,
    ResolveErrorView,
> {
    match result {
        Ok(manifest) => Ok(manifest@),
        Err(error) => Err(error@),
    }
}

/// The indices of the manifests of `store` whose identifier is not among
/// `seen`.
spec fn fresh(store: Seq<ManifestView>, seen: Seq<MCVersionView>) -> Set<int> {
    Set::new(|j: int| 0 <= j < store.len() && !seen.contains(store[j].id))
}

proof fn lemma_fresh_finite(store: Seq<ManifestView>, seen: Seq<MCVersionView>)
    ensures
        fresh(store, seen).finite(),
{
    lemma_int_range(0, store.len() as int);
    assert(fresh(store, seen).subset_of(set_int_range(0, store.len() as int)));
    lemma_len_subset(fresh(store, seen), set_int_range(0, store.len() as int));
}

proof fn lemma_fresh_shrinks(store: Seq<ManifestView>, seen: Seq<MCVersionView>, id: MCVersionView)
    ensures
        fresh(store, seen.push(id)).len() <= fresh(store, seen).len(),
        (!seen.contains(id) && exists|j: int| 0 <= j < store.len() && store[j].id == id) ==> fresh(
            store,
            seen.push(id),
        ).len() < fresh(store, seen).len(),
{
    let before = fresh(store, seen);
    let after = fresh(store, seen.push(id));
    lemma_fresh_finite(store, seen);
    assert forall|j: int| after.contains(j) implies before.contains(j) by {
        if seen.contains(store[j].id) {
            let w = choose|w: int| 0 <= w < seen.len() && seen[w] == store[j].id;
            assert(seen.push(id)[w] == store[j].id);
        }
    }
    assert(after.subset_of(before));
    lemma_len_subset(after, before);
    if !seen.contains(id) && exists|j: int| 0 <= j < store.len() && store[j].id == id {
        let j = choose|j: int| 0 <= j < store.len() && store[j].id == id;
        assert(before.contains(j));
        assert(seen.push(id)[seen.len() as int] == id);
        assert(!after.contains(j));
        assert(after.subset_of(before.remove(j)));
        lemma_len_subset(after, before.remove(j));
        assert(before.len() == before.remove(j).len() + 1);
    }
}

/// A manifest that the store gives is one of its manifests.
proof fn lemma_lookup(store: Seq<ManifestView>, id: MCVersionView)
    ensures
        lookup(store, id) is Some ==> lookup(store, id)->0.id == id && store.contains(
            lookup(store, id)->0,
        ),
    decreases store.len(),
{
    if store.len() > 0 && store[0].id != id {
        lemma_lookup(store.skip(1), id);
        if lookup(store, id) is Some {
            let found = lookup(store, id)->0;
            let w = choose|w: int| 0 <= w < store.skip(1).len() && store.skip(1)[w] == found;
            assert(store[w + 1] == found);
        }
    }
}

/// The first manifest of `store` with the identifier `id`.
pub fn find_version<'a>(store: &'a Vec<VersionManifest>, id: &MCVersion) -> (found: Option<
    &'a VersionManifest,
>)
    ensures
        found is Some <==> lookup(view_seq(store@), id@) is Some,
        found is Some ==> Some(found->0@) == lookup(view_seq(store@), id@),
{
    let ghost views = view_seq(store@);
    let mut i: usize = 0;
    assert(views.skip(0) =~= views);
    while i < store.len()
        invariant
            i <= store.len(),
            views == view_seq(store@),
            lookup(views, id@) == lookup(views.skip(i as int), id@),
        decreases store.len() - i,
    {
        let ghost rest = views.skip(i as int);
        assert(rest[0] == store@[i as int]@);
        assert(rest.skip(1) =~= views.skip(i + 1));
        if store[i].id == *id {
            return Some(&store[i]);
        }
        i += 1;
    }
    None
}

impl VersionManifest {
    /// Resolves the manifest where the manifests of all versions that can
    /// be asked for are in `store`; the manifest of a version is the first
    /// one there with its identifier. The identifiers of
    /// `inheritance_trace` count as passed.
    ///
    /// A manifest that names no parent is returned as it is. Otherwise the
    /// parents are followed: a version that `store` lacks and an identifier
    /// that comes back are errors. The resolution always ends.
    pub fn resolve(&self, store: &Vec<VersionManifest>, inheritance_trace: Vec<MCVersion>) -> (result:
        Result<VersionManifest, ResolveError>)
        ensures
            resolves_to(
                self@,
                view_seq(inheritance_trace@),
                view_seq(store@),
                view_result(result),
            ),
            self@.inherits_from is None ==> view_result(result) == Ok::<
                ManifestView,
                ResolveErrorView,
            >(self@),
    {
        let ghost seen = view_seq(inheritance_trace@);
        let mut resolution = Resolution::with_trace(self.clone(), inheritance_trace);
        let ghost stored = view_seq(store@);
        proof {
            assert(resolution@.take(1) =~= resolution@);
        }
        loop
            invariant
                stored == view_seq(store@),
                seen == view_seq(inheritance_trace@),
                seen == resolution.seen(),
                is_run(seen, resolution@, stored),
                resolution@[0] == self@,
                resolution@.len() > 1 ==> stored.contains(resolution@.last()),
            decreases
                    fresh(stored, passed(seen, resolution@)).len() + (if resolution@.len() == 1 {
                        1nat
                    } else {
                        0nat
                    }),
        {
            let ghost chain = resolution@;
            match resolution.next() {
                ResolveStep::Done(resolved) => {
                    assert(run_result(seen, chain, stored) == Some(
                        Ok::<ManifestView, ResolveErrorView>(resolved@),
                    ));
                    proof {
                        if self@.inherits_from is None {
                            lemma_first_is_last(seen, chain, stored);
                        }
                    }
                    return Ok(resolved);
                },
                ResolveStep::Circular(passed_ids) => {
                    let error = ResolveError::CircularDependency(passed_ids);
                    assert(run_result(seen, chain, stored) == Some(
                        Err::<ManifestView, ResolveErrorView>(error@),
                    ));
                    proof {
                        if self@.inherits_from is None {
                            lemma_first_is_last(seen, chain, stored);
                        }
                    }
                    return Err(error);
                },
                ResolveStep::NeedParent(id) => {
                    proof {
                        if self@.inherits_from is None {
                            lemma_first_is_last(seen, chain, stored);
                        }
                    }
                    match find_version(store, &id) {
                        None => {
                            let error = ResolveError::VersionNotFound(id);
                            assert(run_result(seen, chain, stored) == Some(
                                Err::<ManifestView, ResolveErrorView>(error@),
                            ));
                            return Err(error);
                        },
                        Some(parent) => {
                            let parent = parent.clone();
                            proof {
                                lemma_lookup(stored, id@);
                                let grown = chain.push(parent@);
                                assert(grown.drop_last() =~= chain);
                                assert(ids(chain) =~= ids(chain.drop_last()).push(chain.last().id));
                                assert(passed(seen, grown) =~= passed(seen, chain).push(
                                    chain.last().id,
                                ));
                                lemma_fresh_shrinks(stored, passed(seen, chain), chain.last().id);
                                if chain.len() > 1 {
                                    let w = choose|w: int|
                                        0 <= w < stored.len() && stored[w] == chain.last();
                                    assert(stored[w].id == chain.last().id);
                                }
                                assert forall|i: int| 0 <= i < grown.len() - 1 implies {
                                    &&& #[trigger] decision(seen, grown.take(i + 1)) is NeedParent
                                    &&& lookup(
                                        stored,
                                        decision(seen, grown.take(i + 1))->NeedParent_0,
                                    ) == Some(grown[i + 1])
                                } by {
                                    if i < chain.len() - 1 {
                                        assert(grown.take(i + 1) =~= chain.take(i + 1));
                                    } else {
                                        assert(grown.take(i + 1) =~= chain);
                                    }
                                }
                                assert(grown.last() == parent@);
                            }
                            resolution.supply(parent);
                        },
                    }
                },
            }
        }
    }
}

/// Resolves `manifest` on the manifests of `store`, with no identifier
/// passed before.
pub fn resolve_with(manifest: &VersionManifest, store: &Vec<VersionManifest>) -> (result: Result<
    VersionManifest,
    ResolveError,
>)
    ensures
        resolves_to(
            manifest@,
            Seq::<MCVersionView>::empty(),
            view_seq(store@),
            view_result(result),
        ),
        manifest@.inherits_from is None ==> view_result(result) == Ok::<
            ManifestView,
            ResolveErrorView,
        >(manifest@),
{
    let trace: Vec<MCVersion> = Vec::new();
    assert(view_seq(trace@) =~= Seq::<MCVersionView>::empty());
    manifest.resolve(store, trace)
}

/// In a run that begins with a manifest that names no parent, that manifest
/// is the only one.
proof fn lemma_first_is_last(
    seen: Seq<MCVersionView>,
    chain: Seq<ManifestView>,
    store: Seq<ManifestView>,
)
    requires
        is_run(seen, chain, store),
        chain[0].inherits_from is None,
    ensures
        chain.len() == 1,
        decision(seen, chain) == StepView::Done(chain[0]),
{
    if chain.len() > 1 {
        let i = 0int;
        assert(decision(seen, chain.take(i + 1)) is NeedParent);
        assert(chain.take(i + 1).last() == chain[0]);
    }
}

/// Resolving a manifest that names no parent gives the manifest as it is,
/// whatever has been passed.
pub proof fn lemma_resolved_is_unchanged(seen: Seq<MCVersionView>, manifest: ManifestView)
    requires
        manifest.inherits_from is None,
    ensures
        decision(seen, seq![manifest]) == StepView::Done(manifest),
{
    assert(seq![manifest].last() == manifest);
}

/// A resolved manifest names no parent.
pub proof fn lemma_flattened_names_no_parent(chain: Seq<ManifestView>)
    requires
        chain.len() > 0,
        chain.last().inherits_from is None,
    ensures
        flattened(chain).inherits_from is None,
    decreases chain.len(),
{
    if chain.len() > 1 {
    }
}

/// Resolution is idempotent: what a resolution gives is resolved to itself,
/// whatever has been passed before either resolution.
pub proof fn lemma_resolution_is_idempotent(
    seen: Seq<MCVersionView>,
    chain: Seq<ManifestView>,
    again: Seq<MCVersionView>,
)
    requires
        chain.len() > 0,
        decision(seen, chain) is Done,
    ensures
        decision(again, seq![decision(seen, chain)->Done_0]) == decision(seen, chain),
{
    lemma_flattened_names_no_parent(chain);
    lemma_resolved_is_unchanged(again, flattened(chain));
}

/// A chain whose last manifest names a parent and repeats an identifier
/// that the chain has passed fails as circular, whatever else it holds.
pub proof fn lemma_repeated_identifier_fails(
    seen: Seq<MCVersionView>,
    chain: Seq<ManifestView>,
    earlier: int,
)
    requires
        chain.len() > 0,
        chain.last().inherits_from is Some,
        0 <= earlier < chain.len() - 1,
        chain[earlier].id == chain.last().id,
    ensures
        decision(seen, chain) == StepView::Circular(seen + ids(chain)),
{
    assert(passed(seen, chain)[seen.len() + earlier] == chain.last().id);
}

/// A manifest that names a parent and whose identifier is in the trace that
/// the resolution begins with fails as circular at once.
pub proof fn lemma_traced_identifier_fails(seen: Seq<MCVersionView>, manifest: ManifestView)
    requires
        manifest.inherits_from is Some,
        seen.contains(manifest.id),
    ensures
        decision(seen, seq![manifest]) == StepView::Circular(seen.push(manifest.id)),
{
    let chain = seq![manifest];
    let w = choose|w: int| 0 <= w < seen.len() && seen[w] == manifest.id;
    assert(passed(seen, chain)[w] == manifest.id);
    assert(seen + ids(chain) =~= seen.push(manifest.id));
}

/// The libraries of the child come before those of the parent in the
/// merged manifest, for any two manifests.
pub proof fn lemma_child_libraries_come_first(parent: ManifestView, child: ManifestView)
    ensures
        merged(parent, child).libraries.take(child.libraries.len() as int) == child.libraries,
        merged(parent, child).libraries.skip(child.libraries.len() as int) == parent.libraries,
{
    let all = merged(parent, child).libraries;
    assert(all.take(child.libraries.len() as int) =~= child.libraries);
    assert(all.skip(child.libraries.len() as int) =~= parent.libraries);
}

/// What a chain of more than one manifest flattens to is its first
/// manifest merged onto what the rest flattens to, so the libraries of the
/// first come first.
pub proof fn lemma_flattened_puts_own_libraries_first(chain: Seq<ManifestView>)
    requires
        chain.len() > 0,
    ensures
        chain.len() > 1 ==> flattened(chain) == merged(flattened(chain.skip(1)), chain[0]),
        flattened(chain).libraries.take(chain[0].libraries.len() as int) == chain[0].libraries,
{
    if chain.len() > 1 {
        lemma_child_libraries_come_first(flattened(chain.skip(1)), chain[0]);
    } else {
        assert(chain[0].libraries.take(chain[0].libraries.len() as int) =~= chain[0].libraries);
    }
}

/// Resolving a manifest that names a parent is resolving the parent, with
/// the identifier of the manifest counted as passed, and merging the
/// manifest onto it: the rest of a run is a run of the parent.
pub proof fn lemma_run_goes_on_with_the_parent(
    seen: Seq<MCVersionView>,
    chain: Seq<ManifestView>,
    store: Seq<ManifestView>,
)
    requires
        is_run(seen, chain, store),
        chain.len() > 1,
    ensures
        is_run(seen.push(chain[0].id), chain.skip(1), store),
        passed(seen.push(chain[0].id), chain.skip(1)) == passed(seen, chain),
        decision(seen, chain) is Done ==> decision(seen.push(chain[0].id), chain.skip(1))
            == StepView::Done(flattened(chain.skip(1))) && decision(seen, chain) == StepView::Done(
            merged(flattened(chain.skip(1)), chain[0]),
        ),
        decision(seen, chain) is Circular ==> decision(seen.push(chain[0].id), chain.skip(1))
            == decision(seen, chain),
        decision(seen, chain) is NeedParent ==> decision(seen.push(chain[0].id), chain.skip(1))
            == decision(seen, chain),
{
    let further = seen.push(chain[0].id);
    let rest = chain.skip(1);
    assert forall|k: int| 1 <= k <= rest.len() implies passed(further, #[trigger] rest.take(k))
        == passed(seen, chain.take(k + 1)) && rest.take(k).last() == chain.take(k + 1).last()
        && further + ids(rest.take(k)) == seen + ids(chain.take(k + 1)) by {
        assert(passed(further, rest.take(k)) =~= passed(seen, chain.take(k + 1)));
        assert(further + ids(rest.take(k)) =~= seen + ids(chain.take(k + 1)));
    }
    assert forall|i: int| 0 <= i < rest.len() - 1 implies {
        &&& #[trigger] decision(further, rest.take(i + 1)) is NeedParent
        &&& lookup(store, decision(further, rest.take(i + 1))->NeedParent_0) == Some(rest[i + 1])
    } by {
        let k = i + 1;
        assert(decision(seen, chain.take(k + 1)) is NeedParent);
        assert(passed(further, rest.take(k)) == passed(seen, chain.take(k + 1)));
    }
    let n = rest.len() as int;
    assert(rest.take(n) =~= rest);
    assert(chain.take(n + 1) =~= chain);
    assert(passed(further, rest.take(n)) == passed(seen, chain.take(n + 1)));
}

/// In what a manifest resolves to, its own libraries come first.
pub proof fn lemma_resolved_libraries_begin_with_own(
    manifest: ManifestView,
    seen: Seq<MCVersionView>,
    store: Seq<ManifestView>,
    resolved: ManifestView,
)
    requires
        resolves_to(manifest, seen, store, Ok(resolved)),
    ensures
        resolved.libraries.take(manifest.libraries.len() as int) == manifest.libraries,
{
    let chain = choose|chain: Seq<ManifestView>|
        #![trigger is_run(seen, chain, store)]
        is_run(seen, chain, store) && chain[0] == manifest && run_result(seen, chain, store)
            == Some(Ok::<ManifestView, ResolveErrorView>(resolved));
    lemma_flattened_puts_own_libraries_first(chain);
}

/// Two runs on the same manifests that begin with the same manifest and
/// the same trace pass through the same manifests, as far as the shorter
/// one goes.
pub proof fn lemma_runs_agree(
    seen: Seq<MCVersionView>,
    a: Seq<ManifestView>,
    b: Seq<ManifestView>,
    store: Seq<ManifestView>,
)
    requires
        is_run(seen, a, store),
        is_run(seen, b, store),
        a[0] == b[0],
        a.len() <= b.len(),
    ensures
        a == b.take(a.len() as int),
    decreases a.len(),
{
    if a.len() == 1 {
        assert(a =~= b.take(1));
    } else {
        let shorter = a.drop_last();
        assert forall|i: int| 0 <= i < shorter.len() - 1 implies {
            &&& #[trigger] decision(seen, shorter.take(i + 1)) is NeedParent
            &&& lookup(store, decision(seen, shorter.take(i + 1))->NeedParent_0) == Some(
                shorter[i + 1],
            )
        } by {
            assert(shorter.take(i + 1) =~= a.take(i + 1));
        }
        lemma_runs_agree(seen, shorter, b, store);
        let k = a.len() - 2;
        assert(a.take(k + 1) =~= shorter);
        assert(b.take(k + 1) =~= shorter);
        assert(decision(seen, a.take(k + 1)) is NeedParent);
        assert(decision(seen, b.take(k + 1)) is NeedParent);
        assert(a[k + 1] == b[k + 1]);
        assert(a =~= b.take(a.len() as int));
    }
}

/// A run that has come to its result goes no further: resolving one
/// manifest on the same manifests and the same trace has one result.
pub proof fn lemma_results_agree(
    manifest: ManifestView,
    seen: Seq<MCVersionView>,
    store: Seq<ManifestView>,
    first: Result<ManifestView, ResolveErrorView>,
    second: Result<ManifestView, ResolveErrorView>,
)
    requires
        resolves_to(manifest, seen, store, first),
        resolves_to(manifest, seen, store, second),
    ensures
        first == second,
{
    let a = choose|chain: Seq<ManifestView>|
        #![trigger is_run(seen, chain, store)]
        is_run(seen, chain, store) && chain[0] == manifest && run_result(seen, chain, store)
            == Some(first);
    let b = choose|chain: Seq<ManifestView>|
        #![trigger is_run(seen, chain, store)]
        is_run(seen, chain, store) && chain[0] == manifest && run_result(seen, chain, store)
            == Some(second);
    if a.len() <= b.len() {
        lemma_runs_agree(seen, a, b, store);
        if a.len() < b.len() {
            let k = a.len() - 1;
            assert(b.take(k + 1) =~= a);
            assert(decision(seen, b.take(k + 1)) is NeedParent);
        } else {
            assert(b.take(b.len() as int) =~= b);
        }
    } else {
        lemma_runs_agree(seen, b, a, store);
        let k = b.len() - 1;
        assert(a.take(k + 1) =~= b);
        assert(decision(seen, a.take(k + 1)) is NeedParent);
    }
}

/// A manifest whose chain of parents comes back to an identifier of a
/// manifest that names a parent is never resolved: whatever resolving it
/// gives is the failure that names the chain.
pub proof fn lemma_cycle_is_reported(
    manifest: ManifestView,
    seen: Seq<MCVersionView>,
    store: Seq<ManifestView>,
    chain: Seq<ManifestView>,
    result: Result<ManifestView, ResolveErrorView>,
)
    requires
        is_run(seen, chain, store),
        chain[0] == manifest,
        chain.last().inherits_from is Some,
        repeats(seen, chain),
        resolves_to(manifest, seen, store, result),
    ensures
        result == Err::<ManifestView, ResolveErrorView>(
            ResolveErrorView::CircularDependency(seen + ids(chain)),
        ),
{
    let failure = Err::<ManifestView, ResolveErrorView>(
        ResolveErrorView::CircularDependency(seen + ids(chain)),
    );
    assert(run_result(seen, chain, store) == Some(failure));
    assert(resolves_to(manifest, seen, store, failure));
    lemma_results_agree(manifest, seen, store, result, failure);
}

} // verus!
