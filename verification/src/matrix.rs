//! `cargo matrix`: expands a matrix configuration (packages, targets and
//! feature combinations) into the list of shell steps to run.
//!
//! Reading the configuration, asking `rustc` for the host triple and running
//! the steps happen outside; this module decides which steps there are, in
//! which order, and what each one runs.

use vstd::prelude::*;

use crate::text::{
    chars_of, clone_strings, occurs_at, push_chars, decimal, has_prefix, joined, push_decimal, replace_all, replaced, sorted_set,
    sorted_unique, str_eq, trim, trimmed, views,
};

verus! {

/// Command-line arguments of `cargo matrix`.
pub struct MatrixArgs {
    /// Path to the YAML config (defaults to `<workspace>/matrix.yaml`).
    pub config: Option<String>,
    /// Which command to run: a name from `commands:` (recommended), or an
    /// inline command template. Per-entry `command:` overrides this.
    pub command: Option<String>,
    /// Only run matrix entries for these packages (when any are given).
    pub packages: Vec<String>,
    /// Print commands as they run.
    pub verbose: bool,
}

/// One package or several.
pub enum Packages {
    One(String),
    Many(Vec<String>),
}

/// One target or a (possibly nested) list of targets.
pub enum Targets {
    One(String),
    Many(Vec<TargetElem>),
}

/// An element of a target list: a target, or a nested list.
pub enum TargetElem {
    One(String),
    Many(Vec<TargetElem>),
}

/// A feature that is always on, or a group of which exactly one is on.
pub enum FeatureSpec {
    One(String),
    OneOf(Vec<String>),
}

/// A named command template.
pub struct CommandTemplate {
    pub name: String,
    pub template: String,
}

/// One entry of the matrix.
pub struct MatrixEntry {
    /// Command templates of this entry, by name (see `config_names_distinct`).
    pub commands: Vec<CommandTemplate>,
    /// The command this entry runs, overriding the one given on the command line.
    pub command: Option<String>,
    pub package: Packages,
    pub target: Targets,
    pub features: Vec<FeatureSpec>,
}

/// The matrix configuration.
pub struct MatrixConfig {
    /// Shell commands run before everything else.
    pub pre: Vec<String>,
    /// Command templates shared by all entries, by name (see
    /// `config_names_distinct`).
    pub commands: Vec<CommandTemplate>,
    pub entries: Vec<MatrixEntry>,
}

/// A step of the plan: a display name and the shell command it runs.
pub struct Step {
    pub name: String,
    pub cmd: String,
}

// ---------------------------------------------------------------------------
// Model
// ---------------------------------------------------------------------------

/// A step as (name, command).
pub open spec fn step_view(s: Step) -> (Seq<char>, Seq<char>) {
    (s.name@, s.cmd@)
}

/// The steps as (name, command) pairs.
pub open spec fn steps_view(v: Seq<Step>) -> Seq<(Seq<char>, Seq<char>)> {
    v.map_values(|s: Step| step_view(s))
}

/// `f(0) + f(1) + ... + f(n - 1)`.
pub open spec fn concat_upto<A>(n: int, f: spec_fn(int) -> Seq<A>) -> Seq<A>
    decreases n,
{
    if n <= 0 {
        seq![]
    } else {
        concat_upto(n - 1, f) + f(n - 1)
    }
}

/// The packages an entry names.
pub open spec fn package_names(p: Packages) -> Seq<Seq<char>> {
    match p {
        Packages::One(s) => seq![s@],
        Packages::Many(v) => views(v@),
    }
}

/// The targets of an element of a target list, nested lists flattened in order.
pub open spec fn elem_targets(t: TargetElem) -> Seq<Seq<char>>
    decreases t,
{
    match t {
        TargetElem::One(s) => seq![s@],
        TargetElem::Many(v) => list_targets(v@),
    }
}

/// The targets of a target list, nested lists flattened in order.
pub open spec fn list_targets(v: Seq<TargetElem>) -> Seq<Seq<char>>
    decreases v,
{
    if v.len() == 0 {
        seq![]
    } else {
        list_targets(v.drop_last()) + elem_targets(v.last())
    }
}

/// The targets an entry names, in order.
pub open spec fn target_names(t: Targets) -> Seq<Seq<char>> {
    match t {
        Targets::One(s) => seq![s@],
        Targets::Many(v) => list_targets(v@),
    }
}

/// The template named `name`, if any (the first one so named).
pub open spec fn lookup_template(cmds: Seq<CommandTemplate>, name: Seq<char>) -> Option<Seq<char>>
    decreases cmds.len(),
{
    if cmds.len() == 0 {
        None
    } else if cmds[0].name@ == name {
        Some(cmds[0].template@)
    } else {
        lookup_template(cmds.drop_first(), name)
    }
}

/// No two templates share a name.
pub open spec fn names_distinct(cmds: Seq<CommandTemplate>) -> bool {
    forall|i: int, j: int|
        0 <= i < j < cmds.len() ==> #[trigger] cmds[i].name@ != #[trigger] cmds[j].name@
}

/// The configuration's template tables are maps: within the shared table
/// and within each entry's table, names are distinct.
pub open spec fn config_names_distinct(cfg: MatrixConfig) -> bool {
    &&& names_distinct(cfg.commands@)
    &&& forall|i: int|
        0 <= i < cfg.entries@.len() ==> names_distinct(#[trigger] cfg.entries@[i].commands@)
}

/// In a table with distinct names, looking a name up gives the template of
/// the one entry with that name.
pub proof fn lemma_lookup_unique(cmds: Seq<CommandTemplate>, i: int)
    requires
        names_distinct(cmds),
        0 <= i < cmds.len(),
    ensures
        lookup_template(cmds, cmds[i].name@) == Some(cmds[i].template@),
    decreases i,
{
    if i > 0 {
        assert(cmds[0].name@ != cmds[i].name@);
        let rest = cmds.drop_first();
        assert(rest[i - 1] == cmds[i]);
        assert forall|a: int, b: int| 0 <= a < b < rest.len() implies #[trigger] rest[a].name@
            != #[trigger] rest[b].name@ by {
            assert(cmds[a + 1].name@ != cmds[b + 1].name@);
        }
        lemma_lookup_unique(rest, i - 1);
    }
}

/// Every combination with `f` added.
pub open spec fn push_each(cs: Seq<Seq<Seq<char>>>, f: Seq<char>) -> Seq<Seq<Seq<char>>> {
    cs.map_values(|c: Seq<Seq<char>>| c.push(f))
}

/// Every combination with one of `group` added: first all with the first
/// option, then all with the second, and so on.
pub open spec fn one_of(cs: Seq<Seq<Seq<char>>>, group: Seq<Seq<char>>) -> Seq<Seq<Seq<char>>>
    decreases group.len(),
{
    if group.len() == 0 {
        seq![]
    } else {
        one_of(cs, group.drop_last()) + push_each(cs, group.last())
    }
}

/// The combinations once `spec` is applied.
pub open spec fn apply_feature(cs: Seq<Seq<Seq<char>>>, spec: FeatureSpec) -> Seq<Seq<Seq<char>>> {
    match spec {
        FeatureSpec::One(f) => push_each(cs, f@),
        FeatureSpec::OneOf(g) => one_of(cs, views(g@)),
    }
}

/// The feature combinations of a list of feature specs, starting from the
/// single empty combination.
pub open spec fn feature_combos(specs: Seq<FeatureSpec>) -> Seq<Seq<Seq<char>>>
    decreases specs.len(),
{
    if specs.len() == 0 {
        seq![seq![]]
    } else {
        apply_feature(feature_combos(specs.drop_last()), specs.last())
    }
}

/// The `--features` value of a combination: its features sorted, without
/// repeats, joined by commas.
pub open spec fn features_value(c: Seq<Seq<char>>) -> Seq<char> {
    joined(sorted_set(c), ","@)
}

/// The `--features "..."` flag for a features value (empty when it is).
pub open spec fn features_flag(v: Seq<char>) -> Seq<char> {
    if v.len() == 0 {
        seq![]
    } else {
        "--features \""@ + v + "\""@
    }
}

/// A command template with its placeholders filled in.
pub open spec fn rendered(
    template: Seq<char>,
    workspace: Seq<char>,
    package: Seq<char>,
    target: Seq<char>,
    features: Seq<char>,
    features_flag: Seq<char>,
) -> Seq<char> {
    replaced(
        replaced(
            replaced(
                replaced(replaced(template, "{workspace}"@, workspace), "{package}"@, package),
                "{target}"@,
                target,
            ),
            "{features}"@,
            features,
        ),
        "{features_flag}"@,
        features_flag,
    )
}

/// The target a step builds for: the host triple in place of `host`.
pub open spec fn resolved_target(t: Seq<char>, host: Seq<char>) -> Seq<char> {
    if t == "host"@ {
        host
    } else {
        t
    }
}

/// The name of the `k`-th of `total` steps for a package, target and command.
pub open spec fn step_name(
    package: Seq<char>,
    target: Seq<char>,
    cmd_name: Seq<char>,
    k: int,
    total: int,
) -> Seq<char> {
    package + " ["@ + target + "] ("@ + cmd_name + ")"@ + if total > 1 {
        " #"@ + decimal((k + 1) as nat) + "/"@ + decimal(total as nat)
    } else {
        seq![]
    }
}

/// The steps for one package and target: one per feature combination.
pub open spec fn target_steps(
    workspace: Seq<char>,
    host: Seq<char>,
    package: Seq<char>,
    cmd_name: Seq<char>,
    template: Seq<char>,
    combos: Seq<Seq<Seq<char>>>,
    target: Seq<char>,
) -> Seq<(Seq<char>, Seq<char>)> {
    let t = resolved_target(target, host);
    Seq::new(
        combos.len(),
        |k: int|
            {
                let fv = features_value(combos[k]);
                (
                    step_name(package, t, cmd_name, k, combos.len() as int),
                    rendered(template, workspace, package, t, fv, features_flag(fv)),
                )
            },
    )
}

/// `package` takes part: no packages were asked for, or it was.
pub open spec fn selected(args: MatrixArgs, package: Seq<char>) -> bool {
    args.packages@.len() == 0 || views(args.packages@).contains(package)
}

/// The command an entry runs: its own, or the one given on the command line.
pub open spec fn command_of(args: MatrixArgs, e: MatrixEntry) -> Option<Seq<char>> {
    match e.command {
        Some(c) => Some(c@),
        None => match args.command {
            Some(c) => Some(c@),
            None => None,
        },
    }
}

/// The steps for each target in turn.
pub open spec fn per_target(
    workspace: Seq<char>,
    host: Seq<char>,
    package: Seq<char>,
    cmd_name: Seq<char>,
    template: Seq<char>,
    combos: Seq<Seq<Seq<char>>>,
    targets: Seq<Seq<char>>,
) -> spec_fn(int) -> Seq<(Seq<char>, Seq<char>)> {
    |j: int| target_steps(workspace, host, package, cmd_name, template, combos, targets[j])
}

/// The template that command `name` of entry `e` stands for: the entry's
/// own template of that name, else the shared one, else `name` itself, read
/// as an inline template.
pub open spec fn template_of(cfg: MatrixConfig, e: MatrixEntry, name: Seq<char>) -> Seq<char> {
    match lookup_template(e.commands@, name) {
        Some(t) => t,
        None => match lookup_template(cfg.commands@, name) {
            Some(t) => t,
            None => name,
        },
    }
}

/// The steps of one package of an entry: for each target in order, one
/// step per feature combination. A package that does not take part has
/// none.
pub open spec fn package_steps(
    cfg: MatrixConfig,
    args: MatrixArgs,
    workspace: Seq<char>,
    host: Seq<char>,
    e: MatrixEntry,
    package: Seq<char>,
) -> Seq<(Seq<char>, Seq<char>)> {
    if !selected(args, package) {
        seq![]
    } else {
        match command_of(args, e) {
            None => seq![],
            Some(name) => {
                let targets = target_names(e.target);
                concat_upto(
                    targets.len() as int,
                    per_target(
                        workspace,
                        host,
                        package,
                        name,
                        template_of(cfg, e, name),
                        feature_combos(e.features@),
                        targets,
                    ),
                )
            },
        }
    }
}

/// The steps for each package of an entry in turn.
pub open spec fn per_package(
    cfg: MatrixConfig,
    args: MatrixArgs,
    workspace: Seq<char>,
    host: Seq<char>,
    e: MatrixEntry,
) -> spec_fn(int) -> Seq<(Seq<char>, Seq<char>)> {
    |p: int| package_steps(cfg, args, workspace, host, e, package_names(e.package)[p])
}

/// The steps of one entry: those of its packages, in order.
pub open spec fn entry_steps(
    cfg: MatrixConfig,
    args: MatrixArgs,
    workspace: Seq<char>,
    host: Seq<char>,
    e: MatrixEntry,
) -> Seq<(Seq<char>, Seq<char>)> {
    concat_upto(
        package_names(e.package).len() as int,
        per_package(cfg, args, workspace, host, e),
    )
}

/// The steps for each entry in turn.
pub open spec fn per_entry(
    cfg: MatrixConfig,
    args: MatrixArgs,
    workspace: Seq<char>,
    host: Seq<char>,
) -> spec_fn(int) -> Seq<(Seq<char>, Seq<char>)> {
    |i: int| entry_steps(cfg, args, workspace, host, cfg.entries@[i])
}

/// The steps that run the `pre` commands, named `pre:1`, `pre:2`, ...
pub open spec fn pre_steps(cfg: MatrixConfig) -> Seq<(Seq<char>, Seq<char>)> {
    Seq::new(cfg.pre@.len(), |i: int| ("pre:"@ + decimal((i + 1) as nat), cfg.pre@[i]@))
}

/// The whole plan: the `pre` steps, then the steps of every entry in order.
pub open spec fn planned_steps(
    cfg: MatrixConfig,
    args: MatrixArgs,
    workspace: Seq<char>,
    host: Seq<char>,
) -> Seq<(Seq<char>, Seq<char>)> {
    pre_steps(cfg) + concat_upto(cfg.entries@.len() as int, per_entry(cfg, args, workspace, host))
}

/// Entry `e` has a package that takes part but no command to run.
pub open spec fn entry_fails(args: MatrixArgs, e: MatrixEntry) -> bool {
    command_of(args, e) is None && exists|p: int|
        0 <= p < package_names(e.package).len() && selected(
            args,
            #[trigger] package_names(e.package)[p],
        )
}

/// Planning fails when a package that takes part has no command to run.
pub open spec fn plan_fails(cfg: MatrixConfig, args: MatrixArgs) -> bool {
    exists|i: int| 0 <= i < cfg.entries@.len() && entry_fails(args, #[trigger] cfg.entries@[i])
}

/// Message of the planning failure.
pub open spec fn no_command_message() -> Seq<char> {
    "no command selected (pass --command <name>)"@
}

// ---------------------------------------------------------------------------
// Expansion
// ---------------------------------------------------------------------------

/// The feature combinations held as strings.
pub open spec fn combo_views(v: Seq<Vec<String>>) -> Seq<Seq<Seq<char>>> {
    v.map_values(|c: Vec<String>| views(c@))
}

/// Appends the targets of `t` to `out`, nested lists flattened in order.
pub fn flatten_targets(t: &TargetElem, out: &mut Vec<String>)
    ensures
        views(final(out)@) == views(old(out)@) + elem_targets(*t),
    decreases t,
{
    match t {
        TargetElem::One(s) => {
            let ghost before = out@;
            out.push(s.clone());
            assert(views(out@) =~= views(before) + elem_targets(*t));
        },
        TargetElem::Many(v) => {
            let mut i: usize = 0;
            while i < v.len()
                invariant
                    i <= v@.len(),
                    *t == TargetElem::Many(*v),
                    views(out@) == views(old(out)@) + list_targets(v@.take(i as int)),
                decreases v@.len() - i,
            {
                assert(v@.take(i + 1).drop_last() =~= v@.take(i as int));
                assert(decreases_to!(*t => (*t)->Many_0));
                assert(decreases_to!(*v => v@));
                assert(decreases_to!(v@ => v@[i as int]));
                flatten_targets(&v[i], out);
                i = i + 1;
                assert(views(out@) =~= views(old(out)@) + list_targets(v@.take(i as int)));
            }
            assert(v@.take(v@.len() as int) =~= v@);
        },
    }
}

/// The targets an entry names, in order.
pub fn target_list(t: &Targets) -> (r: Vec<String>)
    ensures
        views(r@) == target_names(*t),
{
    let mut out: Vec<String> = Vec::new();
    match t {
        Targets::One(s) => {
            out.push(s.clone());
            assert(views(out@) =~= target_names(*t));
        },
        Targets::Many(v) => {
            let mut i: usize = 0;
            while i < v.len()
                invariant
                    i <= v@.len(),
                    views(out@) == list_targets(v@.take(i as int)),
                decreases v@.len() - i,
            {
                assert(v@.take(i + 1).drop_last() =~= v@.take(i as int));
                flatten_targets(&v[i], &mut out);
                i = i + 1;
            }
            assert(v@.take(v@.len() as int) =~= v@);
        },
    }
    out
}

/// The packages an entry names.
pub fn package_list(p: &Packages) -> (r: Vec<String>)
    ensures
        views(r@) == package_names(*p),
{
    match p {
        Packages::One(s) => {
            let mut out: Vec<String> = Vec::new();
            out.push(s.clone());
            assert(views(out@) =~= package_names(*p));
            out
        },
        Packages::Many(v) => clone_strings(v),
    }
}

/// The template named `name` in `cmds`, if any.
pub fn find_template<'a>(cmds: &'a Vec<CommandTemplate>, name: &str) -> (r: Option<&'a String>)
    ensures
        match r {
            Some(t) => lookup_template(cmds@, name@) == Some(t@),
            None => lookup_template(cmds@, name@) is None,
        },
{
    let mut i: usize = 0;
    assert(cmds@.skip(0) =~= cmds@);
    while i < cmds.len()
        invariant
            i <= cmds@.len(),
            lookup_template(cmds@, name@) == lookup_template(cmds@.skip(i as int), name@),
        decreases cmds@.len() - i,
    {
        if str_eq(cmds[i].name.as_str(), name) {
            return Some(&cmds[i].template);
        }
        assert(cmds@.skip(i as int).drop_first() =~= cmds@.skip(i + 1));
        i = i + 1;
    }
    None
}

/// Every combination of `cs` with `f` added.
fn push_each_combo(cs: &Vec<Vec<String>>, f: &String) -> (r: Vec<Vec<String>>)
    ensures
        combo_views(r@) == push_each(combo_views(cs@), f@),
{
    let mut out: Vec<Vec<String>> = Vec::new();
    let mut i: usize = 0;
    while i < cs.len()
        invariant
            i <= cs@.len(),
            combo_views(out@) == push_each(combo_views(cs@.take(i as int)), f@),
        decreases cs@.len() - i,
    {
        let mut c = clone_strings(&cs[i]);
        let ghost c0 = c@;
        c.push(f.clone());
        assert(views(c@) =~= views(c0).push(f@));
        let ghost cv = views(c@);
        let ghost before = out@;
        out.push(c);
        proof {
            assert(combo_views(out@) =~= combo_views(before).push(cv));
            assert(combo_views(cs@.take(i + 1)) =~= combo_views(cs@.take(i as int)).push(
                views(cs@[i as int]@),
            ));
            assert(push_each(combo_views(cs@.take(i + 1)), f@) =~= push_each(
                combo_views(cs@.take(i as int)),
                f@,
            ).push(views(cs@[i as int]@).push(f@)));
        }
        i = i + 1;
    }
    assert(cs@.take(cs@.len() as int) =~= cs@);
    out
}

/// The combinations of `cs` once `spec` is applied.
fn apply_feature_spec(cs: &Vec<Vec<String>>, spec: &FeatureSpec) -> (r: Vec<Vec<String>>)
    ensures
        combo_views(r@) == apply_feature(combo_views(cs@), *spec),
{
    match spec {
        FeatureSpec::One(f) => push_each_combo(cs, f),
        FeatureSpec::OneOf(group) => {
            let mut next: Vec<Vec<String>> = Vec::new();
            let mut i: usize = 0;
            while i < group.len()
                invariant
                    i <= group@.len(),
                    combo_views(next@) == one_of(combo_views(cs@), views(group@.take(i as int))),
                decreases group@.len() - i,
            {
                let mut more = push_each_combo(cs, &group[i]);
                let ghost before = next@;
                let ghost added = more@;
                next.append(&mut more);
                assert(views(group@.take(i + 1)).drop_last() =~= views(group@.take(i as int)));
                assert(combo_views(next@) =~= combo_views(before) + combo_views(added));
                i = i + 1;
            }
            assert(group@.take(group@.len() as int) =~= group@);
            next
        },
    }
}

/// The feature combinations of a list of feature specs.
pub fn feature_combinations(specs: &Vec<FeatureSpec>) -> (r: Vec<Vec<String>>)
    ensures
        combo_views(r@) == feature_combos(specs@),
{
    let mut combos: Vec<Vec<String>> = Vec::new();
    let empty: Vec<String> = Vec::new();
    assert(views(empty@) =~= Seq::<Seq<char>>::empty());
    combos.push(empty);
    assert(combo_views(combos@) =~= seq![Seq::<Seq<char>>::empty()]);
    let mut i: usize = 0;
    while i < specs.len()
        invariant
            i <= specs@.len(),
            combo_views(combos@) == feature_combos(specs@.take(i as int)),
        decreases specs@.len() - i,
    {
        assert(specs@.take(i + 1).drop_last() =~= specs@.take(i as int));
        combos = apply_feature_spec(&combos, &specs[i]);
        i = i + 1;
    }
    assert(specs@.take(specs@.len() as int) =~= specs@);
    combos
}

/// `template` with `{workspace}`, `{package}`, `{target}`, `{features}` and
/// `{features_flag}` replaced, in that order, by the given values.
pub fn render_template(
    template: &str,
    workspace: &str,
    package: &str,
    target: &str,
    features: &str,
    features_flag: &str,
) -> (r: String)
    ensures
        r@ == rendered(template@, workspace@, package@, target@, features@, features_flag@),
{
    let s1 = replace_all(template, "{workspace}", workspace);
    let s2 = replace_all(s1.as_str(), "{package}", package);
    let s3 = replace_all(s2.as_str(), "{target}", target);
    let s4 = replace_all(s3.as_str(), "{features}", features);
    replace_all(s4.as_str(), "{features_flag}", features_flag)
}

// ---------------------------------------------------------------------------
// Planning
// ---------------------------------------------------------------------------

/// Whether `package` takes part in the run.
pub fn is_selected(args: &MatrixArgs, package: &str) -> (r: bool)
    ensures
        r == selected(*args, package@),
{
    if args.packages.len() == 0 {
        return true;
    }
    let mut i: usize = 0;
    while i < args.packages.len()
        invariant
            i <= args.packages@.len(),
            forall|j: int| 0 <= j < i ==> args.packages@[j]@ != package@,
        decreases args.packages@.len() - i,
    {
        if str_eq(args.packages[i].as_str(), package) {
            assert(views(args.packages@)[i as int] == package@);
            return true;
        }
        i = i + 1;
    }
    assert(!views(args.packages@).contains(package@)) by {
        if views(args.packages@).contains(package@) {
            let j = choose|j: int|
                0 <= j < views(args.packages@).len() && views(args.packages@)[j] == package@;
            assert(args.packages@[j]@ == package@);
        }
    }
    false
}

/// The `--features "..."` flag for a features value.
fn features_flag_of(value: &String) -> (r: String)
    ensures
        r@ == features_flag(value@),
{
    let mut flag = String::new();
    if !value.as_str().is_empty() {
        flag.append("--features \"");
        flag.append(value.as_str());
        flag.append("\"");
    }
    assert(flag@ =~= features_flag(value@));
    flag
}

/// The name of the `k`-th of `total` steps.
fn step_name_of(package: &str, target: &str, cmd_name: &str, k: usize, total: usize) -> (r: String)
    requires
        k < total,
    ensures
        r@ == step_name(package@, target@, cmd_name@, k as int, total as int),
{
    let mut name = String::new();
    name.append(package);
    name.append(" [");
    name.append(target);
    name.append("] (");
    name.append(cmd_name);
    name.append(")");
    let ghost head = name@;
    if total > 1 {
        name.append(" #");
        push_decimal(&mut name, k + 1);
        name.append("/");
        push_decimal(&mut name, total);
    }
    assert(name@ =~= step_name(package@, target@, cmd_name@, k as int, total as int));
    name
}

/// Appends the steps for one package and target: one per feature combination.
fn push_target_steps(
    workspace: &str,
    host: &str,
    package: &str,
    cmd_name: &str,
    template: &str,
    combos: &Vec<Vec<String>>,
    target: &str,
    steps: &mut Vec<Step>,
)
    ensures
        steps_view(final(steps)@) == steps_view(old(steps)@) + target_steps(
            workspace@,
            host@,
            package@,
            cmd_name@,
            template@,
            combo_views(combos@),
            target@,
        ),
{
    let t: &str = if str_eq(target, "host") {
        host
    } else {
        target
    };
    let ghost expected = target_steps(
        workspace@,
        host@,
        package@,
        cmd_name@,
        template@,
        combo_views(combos@),
        target@,
    );
    let total = combos.len();
    let mut k: usize = 0;
    while k < total
        invariant
            k <= total,
            total == combos@.len(),
            t@ == resolved_target(target@, host@),
            expected == target_steps(
                workspace@,
                host@,
                package@,
                cmd_name@,
                template@,
                combo_views(combos@),
                target@,
            ),
            expected.len() == total,
            steps_view(steps@) == steps_view(old(steps)@) + expected.take(k as int),
        decreases total - k,
    {
        let feats = sorted_unique(&combos[k]);
        let fv = crate::text::join(&feats, ",");
        let flag = features_flag_of(&fv);
        let cmd = render_template(template, workspace, package, t, fv.as_str(), flag.as_str());
        let name = step_name_of(package, t, cmd_name, k, total);
        let ghost before = steps@;
        let step = Step { name, cmd };
        let ghost sv = step_view(step);
        steps.push(step);
        proof {
            assert(views(combos@[k as int]@) == combo_views(combos@)[k as int]);
            assert(sv == expected[k as int]);
            assert(steps_view(steps@) =~= steps_view(before).push(sv));
            assert(expected.take(k + 1) =~= expected.take(k as int).push(expected[k as int]));
        }
        k = k + 1;
    }
    assert(expected.take(total as int) =~= expected);
}

/// Appends the steps of one package of entry `e`; returns `false` (and
/// appends nothing) when the package takes part but has no command.
fn push_package_steps(
    cfg: &MatrixConfig,
    args: &MatrixArgs,
    workspace: &str,
    host: &str,
    e: &MatrixEntry,
    package: &String,
    steps: &mut Vec<Step>,
) -> (ok: bool)
    ensures
        ok == !(selected(*args, package@) && command_of(*args, *e) is None),
        ok ==> steps_view(final(steps)@) == steps_view(old(steps)@) + package_steps(
            *cfg,
            *args,
            workspace@,
            host@,
            *e,
            package@,
        ),
        !ok ==> final(steps)@ == old(steps)@,
{
    if !is_selected(args, package.as_str()) {
        assert(steps_view(steps@) =~= steps_view(steps@) + Seq::<(Seq<char>, Seq<char>)>::empty());
        return true;
    }
    let cmd_name: &String = match &e.command {
        Some(c) => c,
        None => match &args.command {
            Some(c) => c,
            None => {
                return false;
            },
        },
    };
    let template: &String = match find_template(&e.commands, cmd_name.as_str()) {
        Some(t) => t,
        None => match find_template(&cfg.commands, cmd_name.as_str()) {
            Some(t) => t,
            None => cmd_name,
        },
    };
    let combos = feature_combinations(&e.features);
    let targets = target_list(&e.target);
    let ghost f = per_target(
        workspace@,
        host@,
        package@,
        cmd_name@,
        template@,
        feature_combos(e.features@),
        target_names(e.target),
    );
    let ghost base = steps_view(steps@);
    let mut j: usize = 0;
    while j < targets.len()
        invariant
            j <= targets@.len(),
            views(targets@) == target_names(e.target),
            combo_views(combos@) == feature_combos(e.features@),
            f == per_target(
                workspace@,
                host@,
                package@,
                cmd_name@,
                template@,
                feature_combos(e.features@),
                target_names(e.target),
            ),
            steps_view(steps@) == base + concat_upto(j as int, f),
        decreases targets@.len() - j,
    {
        push_target_steps(
            workspace,
            host,
            package.as_str(),
            cmd_name.as_str(),
            template.as_str(),
            &combos,
            targets[j].as_str(),
            steps,
        );
        proof {
            assert(views(targets@)[j as int] == targets@[j as int]@);
            assert(concat_upto(j + 1, f) == concat_upto(j as int, f) + f(j as int));
        }
        j = j + 1;
    }
    true
}

/// Whether the names in `cmds` are distinct.
fn names_are_distinct(cmds: &Vec<CommandTemplate>) -> (r: bool)
    ensures
        r == names_distinct(cmds@),
{
    let mut i: usize = 0;
    while i < cmds.len()
        invariant
            i <= cmds@.len(),
            forall|a: int, b: int|
                0 <= a < b < cmds@.len() && a < i ==> #[trigger] cmds@[a].name@
                    != #[trigger] cmds@[b].name@,
        decreases cmds@.len() - i,
    {
        let mut j: usize = i + 1;
        while j < cmds.len()
            invariant
                i < cmds@.len(),
                i + 1 <= j <= cmds@.len(),
                forall|a: int, b: int|
                    0 <= a < b < cmds@.len() && a < i ==> #[trigger] cmds@[a].name@
                        != #[trigger] cmds@[b].name@,
                forall|b: int| i < b < j ==> cmds@[i as int].name@ != #[trigger] cmds@[b].name@,
            decreases cmds@.len() - j,
        {
            if str_eq(cmds[i].name.as_str(), cmds[j].name.as_str()) {
                return false;
            }
            j = j + 1;
        }
        i = i + 1;
    }
    true
}

/// Whether the configuration's template tables have distinct names.
pub fn config_names_are_distinct(cfg: &MatrixConfig) -> (r: bool)
    ensures
        r == config_names_distinct(*cfg),
{
    if !names_are_distinct(&cfg.commands) {
        return false;
    }
    let mut i: usize = 0;
    while i < cfg.entries.len()
        invariant
            i <= cfg.entries@.len(),
            forall|k: int| 0 <= k < i ==> names_distinct(#[trigger] cfg.entries@[k].commands@),
        decreases cfg.entries@.len() - i,
    {
        if !names_are_distinct(&cfg.entries[i].commands) {
            return false;
        }
        i = i + 1;
    }
    true
}

/// Expands the configuration into the list of steps to run, for the
/// workspace at `workspace` on the host whose target triple is `host`.
///
/// Fails when a package that takes part has no command to run (neither its
/// entry nor the command line names one).
pub fn plan_steps(cfg: &MatrixConfig, args: &MatrixArgs, workspace: &str, host: &str) -> (r: Result<
    Vec<Step>,
    String,
>)
    requires
        config_names_distinct(*cfg),
    ensures
        r is Err <==> plan_fails(*cfg, *args),
        r matches Err(m) ==> m@ == no_command_message(),
        r matches Ok(v) ==> steps_view(v@) == planned_steps(*cfg, *args, workspace@, host@),
{
    let mut steps: Vec<Step> = Vec::new();
    let mut i: usize = 0;
    let ghost pre = pre_steps(*cfg);
    while i < cfg.pre.len()
        invariant
            i <= cfg.pre@.len(),
            pre == pre_steps(*cfg),
            pre.len() == cfg.pre@.len(),
            steps_view(steps@) == pre.take(i as int),
        decreases cfg.pre@.len() - i,
    {
        let mut name = String::new();
        name.append("pre:");
        push_decimal(&mut name, i + 1);
        let step = Step { name, cmd: cfg.pre[i].clone() };
        let ghost before = steps@;
        let ghost sv = step_view(step);
        steps.push(step);
        proof {
            assert(sv == pre[i as int]);
            assert(steps_view(steps@) =~= steps_view(before).push(sv));
            assert(pre.take(i + 1) =~= pre.take(i as int).push(pre[i as int]));
        }
        i = i + 1;
    }
    assert(pre.take(cfg.pre@.len() as int) =~= pre);
    let ghost fe = per_entry(*cfg, *args, workspace@, host@);
    let mut i: usize = 0;
    while i < cfg.entries.len()
        invariant
            i <= cfg.entries@.len(),
            pre == pre_steps(*cfg),
            fe == per_entry(*cfg, *args, workspace@, host@),
            steps_view(steps@) == pre + concat_upto(i as int, fe),
            forall|k: int| 0 <= k < i ==> !entry_fails(*args, #[trigger] cfg.entries@[k]),
        decreases cfg.entries@.len() - i,
    {
        let e = &cfg.entries[i];
        assert(*e == cfg.entries@[i as int]);
        let pkgs = package_list(&e.package);
        let ghost fp = per_package(*cfg, *args, workspace@, host@, *e);
        let ghost base = steps_view(steps@);
        let mut p: usize = 0;
        while p < pkgs.len()
            invariant
                p <= pkgs@.len(),
                i < cfg.entries@.len(),
                *e == cfg.entries@[i as int],
                fp == per_package(*cfg, *args, workspace@, host@, *e),
                views(pkgs@) == package_names(e.package),
                steps_view(steps@) == base + concat_upto(p as int, fp),
                forall|q: int|
                    0 <= q < p ==> !(selected(*args, #[trigger] package_names(e.package)[q])
                        && command_of(*args, *e) is None),
            decreases pkgs@.len() - p,
        {
            let ok = push_package_steps(cfg, args, workspace, host, e, &pkgs[p], &mut steps);
            proof {
                assert(views(pkgs@)[p as int] == pkgs@[p as int]@);
            }
            if !ok {
                assert(entry_fails(*args, cfg.entries@[i as int]));
                return Err(String::from_str("no command selected (pass --command <name>)"));
            }
            assert(concat_upto(p + 1, fp) == concat_upto(p as int, fp) + fp(p as int));
            p = p + 1;
        }
        proof {
            assert(!entry_fails(*args, cfg.entries@[i as int]));
            assert(concat_upto(i + 1, fe) == concat_upto(i as int, fe) + fe(i as int));
        }
        i = i + 1;
    }
    Ok(steps)
}

// ---------------------------------------------------------------------------
// Laws
// ---------------------------------------------------------------------------

/// How many combinations a list of feature specs gives: each `OneOf` group
/// multiplies the count by its size; a single feature leaves it alone.
pub open spec fn combo_count(specs: Seq<FeatureSpec>) -> nat
    decreases specs.len(),
{
    if specs.len() == 0 {
        1
    } else {
        combo_count(specs.drop_last()) * match specs.last() {
            FeatureSpec::One(_) => 1nat,
            FeatureSpec::OneOf(g) => g@.len(),
        }
    }
}

proof fn lemma_one_of_len(cs: Seq<Seq<Seq<char>>>, group: Seq<Seq<char>>)
    ensures
        one_of(cs, group).len() == cs.len() * group.len(),
    decreases group.len(),
{
    if group.len() > 0 {
        lemma_one_of_len(cs, group.drop_last());
        assert(cs.len() * (group.len() - 1) + cs.len() == cs.len() * group.len())
            by (nonlinear_arith);
    }
}

/// The number of feature combinations is the product of the sizes of the
/// `OneOf` groups (an empty group leaves no combination at all).
pub proof fn lemma_combo_count(specs: Seq<FeatureSpec>)
    ensures
        feature_combos(specs).len() == combo_count(specs),
    decreases specs.len(),
{
    if specs.len() > 0 {
        lemma_combo_count(specs.drop_last());
        let cs = feature_combos(specs.drop_last());
        match specs.last() {
            FeatureSpec::One(_) => {},
            FeatureSpec::OneOf(g) => {
                lemma_one_of_len(cs, views(g@));
                assert(cs.len() * g@.len() == combo_count(specs.drop_last()) * g@.len());
            },
        }
    }
}

proof fn lemma_concat_upto_len(n: int, f: spec_fn(int) -> Seq<(Seq<char>, Seq<char>)>, k: nat)
    requires
        0 <= n,
        forall|j: int| 0 <= j < n ==> #[trigger] f(j).len() == k,
    ensures
        concat_upto(n, f).len() == n * k,
    decreases n,
{
    if n > 0 {
        lemma_concat_upto_len(n - 1, f, k);
        assert(f(n - 1).len() == k);
        assert(concat_upto(n, f) == concat_upto(n - 1, f) + f(n - 1));
        assert((n - 1) * k + k == n * k) by (nonlinear_arith);
    } else {
        assert(n * k == 0) by (nonlinear_arith)
            requires
                n == 0,
        ;
    }
}

/// A package that takes part and has a command gets one step per target and
/// feature combination; one that does not take part gets none.
pub proof fn lemma_package_step_count(
    cfg: MatrixConfig,
    args: MatrixArgs,
    workspace: Seq<char>,
    host: Seq<char>,
    e: MatrixEntry,
    package: Seq<char>,
)
    ensures
        !selected(args, package) ==> package_steps(cfg, args, workspace, host, e, package).len()
            == 0,
        selected(args, package) && command_of(args, e) is Some ==> package_steps(
            cfg,
            args,
            workspace,
            host,
            e,
            package,
        ).len() == target_names(e.target).len() * combo_count(e.features@),
{
    if selected(args, package) {
        if let Some(name) = command_of(args, e) {
            let t = template_of(cfg, e, name);
            let targets = target_names(e.target);
            let combos = feature_combos(e.features@);
            lemma_combo_count(e.features@);
            let f = per_target(workspace, host, package, name, t, combos, targets);
            assert forall|j: int| 0 <= j < targets.len() implies #[trigger] f(j).len()
                == combo_count(e.features@) by {}
            lemma_concat_upto_len(targets.len() as int, f, combo_count(e.features@));
        }
    }
}

proof fn lemma_concat_upto_ext<A>(n: int, f: spec_fn(int) -> Seq<A>, g: spec_fn(int) -> Seq<A>)
    requires
        forall|j: int| 0 <= j < n ==> #[trigger] f(j) == g(j),
    ensures
        concat_upto(n, f) == concat_upto(n, g),
    decreases n,
{
    if n > 0 {
        lemma_concat_upto_ext(n - 1, f, g);
        assert(f(n - 1) == g(n - 1));
    }
}

/// The steps of each package of entry `e` in a run that keeps only the
/// packages `ps`: its steps in the run `all` over every package when `ps`
/// lists it, else none.
pub open spec fn filtered_per_package(
    cfg: MatrixConfig,
    all: MatrixArgs,
    workspace: Seq<char>,
    host: Seq<char>,
    e: MatrixEntry,
    ps: Seq<Seq<char>>,
) -> spec_fn(int) -> Seq<(Seq<char>, Seq<char>)> {
    |p: int|
        if ps.contains(package_names(e.package)[p]) {
            package_steps(cfg, all, workspace, host, e, package_names(e.package)[p])
        } else {
            seq![]
        }
}

/// The steps of each entry in a run that keeps only the packages `ps`.
pub open spec fn filtered_per_entry(
    cfg: MatrixConfig,
    all: MatrixArgs,
    workspace: Seq<char>,
    host: Seq<char>,
    ps: Seq<Seq<char>>,
) -> spec_fn(int) -> Seq<(Seq<char>, Seq<char>)> {
    |i: int|
        concat_upto(
            package_names(cfg.entries@[i].package).len() as int,
            filtered_per_package(cfg, all, workspace, host, cfg.entries@[i], ps),
        )
}

/// Filtering by packages (`-p`) keeps the `pre` steps and, of the steps of
/// the run over every package, exactly those of the listed packages, in the
/// same order. A filtered run fails only if the unfiltered one does.
pub proof fn lemma_package_filter(
    cfg: MatrixConfig,
    some: MatrixArgs,
    all: MatrixArgs,
    workspace: Seq<char>,
    host: Seq<char>,
)
    requires
        some.command == all.command,
        some.packages@.len() > 0,
        all.packages@.len() == 0,
    ensures
        planned_steps(cfg, some, workspace, host) == pre_steps(cfg) + concat_upto(
            cfg.entries@.len() as int,
            filtered_per_entry(cfg, all, workspace, host, views(some.packages@)),
        ),
        plan_fails(cfg, some) ==> plan_fails(cfg, all),
{
    let ps = views(some.packages@);
    let fe = per_entry(cfg, some, workspace, host);
    let ge = filtered_per_entry(cfg, all, workspace, host, ps);
    assert forall|i: int| 0 <= i < cfg.entries@.len() implies #[trigger] fe(i) == ge(i) by {
        let e = cfg.entries@[i];
        let fp = per_package(cfg, some, workspace, host, e);
        let gp = filtered_per_package(cfg, all, workspace, host, e, ps);
        assert forall|p: int| 0 <= p < package_names(e.package).len() implies #[trigger] fp(p)
            == gp(p) by {
            let pkg = package_names(e.package)[p];
            assert(selected(some, pkg) == ps.contains(pkg));
            assert(selected(all, pkg));
            assert(command_of(some, e) == command_of(all, e));
        }
        lemma_concat_upto_ext(package_names(e.package).len() as int, fp, gp);
    }
    lemma_concat_upto_ext(cfg.entries@.len() as int, fe, ge);
    if plan_fails(cfg, some) {
        let i = choose|i: int| 0 <= i < cfg.entries@.len() && entry_fails(some, #[trigger] cfg.entries@[i]);
        let e = cfg.entries@[i];
        let p = choose|p: int|
            0 <= p < package_names(e.package).len() && selected(
                some,
                #[trigger] package_names(e.package)[p],
            );
        assert(selected(all, package_names(e.package)[p]));
        assert(command_of(some, e) == command_of(all, e));
        assert(entry_fails(all, cfg.entries@[i]));
    }
}

/// A command named in an entry overrides the one given on the command line.
pub proof fn lemma_entry_command_overrides(args: MatrixArgs, e: MatrixEntry)
    ensures
        e.command matches Some(c) ==> command_of(args, e) == Some(c@),
        e.command is None ==> command_of(args, e) == match args.command {
            Some(c) => Some(c@),
            None => None::<Seq<char>>,
        },
{
}

/// An entry's own template for a command wins over the shared one, and a
/// command that names no template is itself the template.
pub proof fn lemma_entry_template_wins(cfg: MatrixConfig, e: MatrixEntry, name: Seq<char>)
    ensures
        lookup_template(e.commands@, name) matches Some(t) ==> template_of(cfg, e, name) == t,
        lookup_template(e.commands@, name) is None ==> template_of(cfg, e, name) == match lookup_template(cfg.commands@, name) {
            Some(t) => t,
            None => name,
        },
        lookup_template(e.commands@, name) is None && lookup_template(cfg.commands@, name) is None
            ==> template_of(cfg, e, name) == name,
{
}

// ---------------------------------------------------------------------------
// Workspace lookup
// ---------------------------------------------------------------------------

/// What a search for a file in a directory and its ancestors does next.
#[derive(Clone, Copy, Debug, PartialEq, Eq, Structural)]
pub enum SearchStep {
    /// The candidate in the current directory is the answer.
    Found,
    /// Go on in the parent directory.
    Climb,
    /// Give up: the file is nowhere up to the root.
    NotFound,
}

/// The next step of a search for a file in a directory and its ancestors,
/// given whether the candidate in the current directory exists and whether
/// that directory has a parent.
pub fn upward_search_step(candidate_exists: bool, has_parent: bool) -> (r: SearchStep)
    ensures
        candidate_exists ==> r == SearchStep::Found,
        !candidate_exists && has_parent ==> r == SearchStep::Climb,
        !candidate_exists && !has_parent ==> r == SearchStep::NotFound,
{
    if candidate_exists {
        SearchStep::Found
    } else if has_parent {
        SearchStep::Climb
    } else {
        SearchStep::NotFound
    }
}

// ---------------------------------------------------------------------------
// Host triple
// ---------------------------------------------------------------------------

/// Position `p` of `s` starts a line.
pub open spec fn line_start(s: Seq<char>, p: int) -> bool {
    p == 0 || (0 < p <= s.len() && s[p - 1] == '\n')
}

/// The line starting at `p` is the `host:` line of `rustc -vV`.
pub open spec fn host_line_at(s: Seq<char>, p: int) -> bool {
    line_start(s, p) && 0 <= p <= s.len() && has_prefix(s.skip(p), "host:"@)
}

/// Where the line containing position `p` ends: the next newline, or the end.
pub open spec fn line_end(s: Seq<char>, p: int) -> int
    decreases s.len() - p,
{
    if p >= s.len() || p < 0 {
        s.len() as int
    } else if s[p] == '\n' {
        p
    } else {
        line_end(s, p + 1)
    }
}

/// The first `host:` line of `s` starts at `p`.
pub open spec fn first_host_line(s: Seq<char>, p: int) -> bool {
    host_line_at(s, p) && forall|q: int| 0 <= q < p ==> !#[trigger] host_line_at(s, q)
}

/// The host triple reported in the output `s` of `rustc -vV`: what follows
/// `host:` on the first line that starts with it, trimmed.
pub open spec fn host_triple(s: Seq<char>) -> Option<Seq<char>> {
    if exists|p: int| first_host_line(s, p) {
        let p = choose|p: int| first_host_line(s, p);
        Some(trimmed(s.subrange(p + 5, line_end(s, p))))
    } else {
        None
    }
}

/// Message when the output of `rustc -vV` has no `host:` line.
pub open spec fn missing_host_message() -> Seq<char> {
    "rustc -vV output missing host line"@
}

/// Index of the first newline at or after `from` (or the length).
fn find_line_end(cs: &Vec<char>, from: usize) -> (r: usize)
    requires
        from <= cs@.len(),
    ensures
        from <= r <= cs@.len(),
        r == line_end(cs@, from as int),
        forall|q: int| from <= q < r ==> cs@[q] != '\n',
        r < cs@.len() ==> cs@[r as int] == '\n',
{
    let mut i = from;
    while i < cs.len() && cs[i] != '\n'
        invariant
            from <= i <= cs@.len(),
            line_end(cs@, from as int) == line_end(cs@, i as int),
            forall|q: int| from <= q < i ==> cs@[q] != '\n',
        decreases cs@.len() - i,
    {
        i = i + 1;
    }
    i
}

/// The host triple reported in the output of `rustc -vV`, or an error when
/// the output has no `host:` line.
pub fn parse_host_triple(rustc_output: &str) -> (r: Result<String, String>)
    ensures
        match r {
            Ok(h) => host_triple(rustc_output@) == Some(h@),
            Err(m) => host_triple(rustc_output@) is None && m@ == missing_host_message(),
        },
{
    let cs = chars_of(rustc_output);
    let prefix = chars_of("host:");
    proof {
        reveal_strlit("host:");
    }
    let n = cs.len();
    let mut p: usize = 0;
    loop
        invariant
            p <= n,
            n == cs@.len(),
            cs@ == rustc_output@,
            prefix@ == "host:"@,
            prefix@.len() == 5,
            line_start(cs@, p as int),
            forall|q: int| 0 <= q < p ==> !#[trigger] host_line_at(cs@, q),
        decreases n - p,
    {
        if occurs_at(&cs, p, &prefix) {
            let e = find_line_end(&cs, p);
            assert(cs@.skip(p as int).take(5) =~= cs@.subrange(p as int, p + 5));
            assert(host_line_at(cs@, p as int));
            assert(first_host_line(cs@, p as int));
            let ghost c = choose|q: int| first_host_line(cs@, q);
            assert(c == p) by {
                if c < p {
                    assert(!host_line_at(cs@, c));
                } else if c > p {
                    assert(!host_line_at(cs@, p as int));
                }
            }
            assert(e >= p + 5) by {
                reveal_strlit("host:");
                if e < p + 5 {
                    assert(cs@.subrange(p as int, p + 5)[e - p] == cs@[e as int]);
                    assert(cs@[e as int] == '\n');
                    assert("host:"@[e - p] != '\n');
                }
            }
            let mut rest = String::new();
            push_chars(&mut rest, &cs, p + 5, e);
            let h = trim(rest.as_str());
            return Ok(h);
        }
        assert(!host_line_at(cs@, p as int)) by {
            if host_line_at(cs@, p as int) {
                assert(p + 5 <= n);
                assert(cs@.skip(p as int).take(5) =~= cs@.subrange(p as int, p + 5));
            }
        }
        let e = find_line_end(&cs, p);
        if e >= n {
            assert forall|q: int| 0 <= q implies !#[trigger] host_line_at(cs@, q) by {
                if q > p {
                    assert(!line_start(cs@, q)) by {
                        if q <= n {
                            assert(cs@[q - 1] != '\n');
                        }
                    }
                }
            }
            return Err(String::from_str("rustc -vV output missing host line"));
        }
        assert forall|q: int| 0 <= q < e + 1 implies !#[trigger] host_line_at(cs@, q) by {
            if q > p {
                assert(cs@[q - 1] != '\n');
            }
        }
        p = e + 1;
    }
}

} // verus!
