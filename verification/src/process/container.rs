//! Detection of the container around this process.
use vstd::prelude::*;

use crate::process::attach::ContainerContext;
use crate::text;

verus! {

broadcast use vstd::string::group_string_axioms;

/// The path of a control-group line, its third field.
pub open spec fn cgroup_path(line: Seq<char>) -> Seq<char> {
    let fields = text::split_on(line, ':');
    if fields.len() > 2 {
        fields[2]
    } else {
        Seq::empty()
    }
}

/// Whether a control-group line suggests a container: its path is neither the root
/// nor that of a system service.
pub open spec fn is_confined(line: Seq<char>) -> bool {
    let path = cgroup_path(line);
    path.len() > 0 && path != "/"@ && !"/system.slice"@.is_prefix_of(path)
}

/// The container that the environment indicates. Kubernetes comes before Docker in
/// control groups, and Docker's marker file before both.
pub open spec fn context_of(has_dockerenv: bool, cgroup: Option<Seq<char>>) -> ContainerContext {
    if has_dockerenv {
        ContainerContext::Docker
    } else {
        match cgroup {
            Some(g) => if text::occurs(g, "/kubepods"@) {
                ContainerContext::Kubernetes
            } else if text::occurs(g, "/docker"@) {
                ContainerContext::Docker
            } else if exists|i: int|
                0 <= i < text::lines(g).len() && is_confined(#[trigger] text::lines(g)[i]) {
                ContainerContext::Unknown
            } else {
                ContainerContext::Host
            },
            None => ContainerContext::Host,
        }
    }
}

/// Whether a control-group line suggests a container.
fn confined(line: &str) -> (r: bool)
    ensures
        r == is_confined(line@),
{
    let fields = text::split_text(line, ':');
    assert(text::texts(fields@).len() == fields@.len());
    if fields.len() <= 2 {
        return false;
    }
    assert(text::texts(fields@)[2] == fields@[2]@);
    let path = fields[2].as_str();
    !path.is_empty() && !text::same_text(path, "/") && !text::begins_with(path, "/system.slice")
}

/// What the control groups of this process say.
pub open spec fn cgroup_view(cgroup: Option<String>) -> Option<Seq<char>> {
    match cgroup {
        Some(g) => Some(g@),
        None => None,
    }
}

/// Detects whether this process runs inside a container, by Docker's marker file
/// and the contents of `/proc/self/cgroup`. Best effort.
pub fn detect(has_dockerenv: bool, cgroup: &Option<String>) -> (r: ContainerContext)
    ensures
        r == context_of(has_dockerenv, cgroup_view(*cgroup)),
{
    if has_dockerenv {
        return ContainerContext::Docker;
    }
    match cgroup {
        Some(g) => {
            if text::contains(g.as_str(), "/kubepods") {
                return ContainerContext::Kubernetes;
            }
            if text::contains(g.as_str(), "/docker") {
                return ContainerContext::Docker;
            }
            let lines = text::lines_of(g.as_str());
            let ghost ls = text::lines(g@);
            let mut i: usize = 0;
            assert(text::texts(lines@).len() == lines@.len());
            while i < lines.len()
                invariant
                    i <= lines@.len(),
                    !has_dockerenv,
                    *cgroup == Some(*g),
                    !text::occurs(g@, "/kubepods"@),
                    !text::occurs(g@, "/docker"@),
                    ls == text::lines(g@),
                    ls == text::texts(lines@),
                    forall|k: int| 0 <= k < i ==> !is_confined(#[trigger] ls[k]),
                decreases lines.len() - i,
            {
                assert(ls[i as int] == lines@[i as int]@);
                if confined(lines[i].as_str()) {
                    assert(is_confined(text::lines(g@)[i as int]));
                    return ContainerContext::Unknown;
                }
                i = i + 1;
            }
            ContainerContext::Host
        },
        None => ContainerContext::Host,
    }
}

/// Docker's marker file means Docker; "/kubepods" in the control groups means Kubernetes,
/// and "/docker" without it Docker.
pub proof fn law_containers_leave_marks(has_dockerenv: bool, cgroup: Option<Seq<char>>)
    ensures
        context_of(has_dockerenv, cgroup) is Kubernetes <==> !has_dockerenv && cgroup is Some
            && text::occurs(cgroup->0, "/kubepods"@),
        context_of(has_dockerenv, cgroup) is Docker <==> has_dockerenv || (cgroup is Some
            && text::occurs(cgroup->0, "/docker"@) && !text::occurs(cgroup->0, "/kubepods"@)),
        cgroup is None && !has_dockerenv ==> context_of(has_dockerenv, cgroup) is Host,
{
}

/// A control group without those marks is that of an unknown container where its path is
/// neither empty, nor the root, nor that of a system service.
pub proof fn law_other_paths_are_unknown_containers(id: Seq<char>, kind: Seq<char>, path: Seq<char>)
    requires
        !id.contains(':') && !id.contains('\n'),
        !kind.contains(':') && !kind.contains('\n'),
        !path.contains(':') && !path.contains('\n'),
        !text::occurs(id + seq![':'] + kind + seq![':'] + path, "/kubepods"@),
        !text::occurs(id + seq![':'] + kind + seq![':'] + path, "/docker"@),
    ensures
        cgroup_path(id + seq![':'] + kind + seq![':'] + path) == path,
        context_of(false, Some(id + seq![':'] + kind + seq![':'] + path)) == (if path.len() == 0
            || path == "/"@ || "/system.slice"@.is_prefix_of(path) {
            ContainerContext::Host
        } else {
            ContainerContext::Unknown
        }),
{
    let line = id + seq![':'] + kind + seq![':'] + path;
    let rest = kind + seq![':'] + path;
    assert(line =~= id + seq![':'] + rest);
    lemma_split_field(id, rest);
    lemma_split_field(kind, path);
    text::lemma_first_index(path, ':');
    assert(text::split_on(path, ':') =~= seq![path]);
    assert(text::split_on(line, ':') =~= seq![id, kind, path]);
    assert(!line.contains('\n')) by {
        if line.contains('\n') {
            let i = choose|i: int| 0 <= i < line.len() && line[i] == '\n';
            if i < id.len() {
                assert(id[i] == '\n');
            } else if i > id.len() && i < id.len() + 1 + kind.len() {
                assert(kind[i - id.len() - 1] == '\n');
            } else if i > id.len() + 1 + kind.len() {
                assert(path[i - id.len() - kind.len() - 2] == '\n');
            }
        }
    }
    text::law_lines(line, Seq::empty());
    assert(text::lines(line)[0] == line);
    assert(is_confined(line) ==> is_confined(text::lines(line)[0]));
}

proof fn lemma_split_field(a: Seq<char>, rest: Seq<char>)
    requires
        !a.contains(':'),
    ensures
        text::split_on(a + seq![':'] + rest, ':') == seq![a] + text::split_on(rest, ':'),
{
    let all = a + seq![':'] + rest;
    text::lemma_first_index(all, ':');
    let n = text::first_index(all, ':');
    assert(all[a.len() as int] == ':');
    if n < a.len() {
        assert(all[n] == a[n]);
    }
    assert(all.take(n) =~= a);
    assert(all.skip(n + 1) =~= rest);
}

} // verus!
