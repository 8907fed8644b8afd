//! Construction of the on-disk paths of a submission, and the proof that
//! submissions to distinct (submitter, project) pairs occupy disjoint paths.

use vstd::prelude::*;

verus! {

/// A path segment free of separators, as submitter and project identifiers
/// taken from single URL path segments are.
pub open spec fn no_slash(s: Seq<char>) -> bool {
    forall|i: int| 0 <= i < s.len() ==> s[i] != '/'
}

/// The project directory of a (submitter, project) pair.
pub open spec fn project_dir_view(user_id: Seq<char>, project_id: Seq<char>) -> Seq<char> {
    "./projects/"@ + user_id + seq!['/'] + project_id
}

/// A file path under a project directory.
pub open spec fn project_file_view(
    user_id: Seq<char>,
    project_id: Seq<char>,
    rel: Seq<char>,
) -> Seq<char> {
    project_dir_view(user_id, project_id) + seq!['/'] + rel
}

/// Builds the directory a submission is materialized in.
pub fn project_dir_path(user_id: &str, project_id: &str) -> (r: String)
    ensures
        r@ == project_dir_view(user_id@, project_id@),
{
    let mut r = String::from_str("./projects/");
    r.append(user_id);
    r.append("/");
    r.append(project_id);
    proof {
        reveal_strlit("/");
        assert("/"@ =~= seq!['/']);
        assert(r@ =~= project_dir_view(user_id@, project_id@));
    }
    r
}

/// Joins a directory and a relative path with a single separator.
pub fn path_join(dir: &str, rel: &str) -> (r: String)
    ensures
        r@ == dir@ + seq!['/'] + rel@,
{
    let mut r = dir.to_owned();
    r.append("/");
    r.append(rel);
    proof {
        reveal_strlit("/");
        assert("/"@ =~= seq!['/']);
        assert(r@ =~= dir@ + seq!['/'] + rel@);
    }
    r
}

/// The local file name under which a retrieved blob is offered for download.
pub fn retrieved_archive_name(blob_id: &str) -> (r: String)
    ensures
        r@ == "retrieved_"@ + blob_id@ + ".tar.gz"@,
{
    let mut r = String::from_str("retrieved_");
    r.append(blob_id);
    r.append(".tar.gz");
    r
}

/// Distinct (submitter, project) pairs with separator-free identifiers never
/// share a file path: writes and reads of one submission cannot touch
/// another's, whatever the relative paths inside the two directories are.
pub proof fn lemma_distinct_projects_isolated(
    u1: Seq<char>,
    p1: Seq<char>,
    u2: Seq<char>,
    p2: Seq<char>,
    r1: Seq<char>,
    r2: Seq<char>,
)
    requires
        no_slash(u1),
        no_slash(p1),
        no_slash(u2),
        no_slash(p2),
        u1 != u2 || p1 != p2,
    ensures
        project_dir_view(u1, p1) != project_dir_view(u2, p2),
        project_file_view(u1, p1, r1) != project_file_view(u2, p2, r2),
{
    lemma_distinct_project_files(u1, p1, u2, p2, r1, r2);
    if project_dir_view(u1, p1) == project_dir_view(u2, p2) {
        assert(project_file_view(u1, p1, r1) =~= project_dir_view(u2, p2) + seq!['/'] + r1);
        lemma_distinct_project_files(u1, p1, u2, p2, r1, r1);
    }
}

proof fn lemma_distinct_project_files(
    u1: Seq<char>,
    p1: Seq<char>,
    u2: Seq<char>,
    p2: Seq<char>,
    r1: Seq<char>,
    r2: Seq<char>,
)
    requires
        no_slash(u1),
        no_slash(p1),
        no_slash(u2),
        no_slash(p2),
        u1 != u2 || p1 != p2,
    ensures
        project_file_view(u1, p1, r1) != project_file_view(u2, p2, r2),
{
    let a = "./projects/"@;
    let f1 = project_file_view(u1, p1, r1);
    let f2 = project_file_view(u2, p2, r2);
    if f1 == f2 {
        // Characterize where the slashes around the identifiers sit in each path.
        lemma_file_layout(a, u1, p1, r1);
        lemma_file_layout(a, u2, p2, r2);
        let al = a.len() as int;
        // The slash ending the submitter segment pins down its length.
        if u1.len() < u2.len() {
            assert(f1[al + u1.len()] == '/');
            assert(f2[al + u1.len()] == u2[u1.len() as int]);
        } else if u2.len() < u1.len() {
            assert(f2[al + u2.len()] == '/');
            assert(f1[al + u2.len()] == u1[u2.len() as int]);
        }
        assert(u1.len() == u2.len());
        assert forall|i: int| 0 <= i < u1.len() implies u1[i] == u2[i] by {
            assert(f1[al + i] == u1[i]);
            assert(f2[al + i] == u2[i]);
        }
        assert(u1 =~= u2);
        // The slash ending the project segment pins down its length in turn.
        let b = al + u1.len() + 1;
        if p1.len() < p2.len() {
            assert(f1[b + p1.len()] == '/');
            assert(f2[b + p1.len()] == p2[p1.len() as int]);
        } else if p2.len() < p1.len() {
            assert(f2[b + p2.len()] == '/');
            assert(f1[b + p2.len()] == p1[p2.len() as int]);
        }
        assert(p1.len() == p2.len());
        assert forall|i: int| 0 <= i < p1.len() implies p1[i] == p2[i] by {
            assert(f1[b + i] == p1[i]);
            assert(f2[b + i] == p2[i]);
        }
        assert(p1 =~= p2);
    }
}

/// Where each region of `a + u + '/' + p + '/' + r` sits.
proof fn lemma_file_layout(a: Seq<char>, u: Seq<char>, p: Seq<char>, r: Seq<char>)
    ensures
        ({
            let f = a + u + seq!['/'] + p + seq!['/'] + r;
            let al = a.len() as int;
            &&& f.len() == al + u.len() + 1 + p.len() + 1 + r.len()
            &&& forall|i: int| 0 <= i < a.len() ==> f[i] == a[i]
            &&& forall|i: int| 0 <= i < u.len() ==> f[al + i] == u[i]
            &&& f[al + u.len()] == '/'
            &&& forall|i: int| 0 <= i < p.len() ==> f[al + u.len() + 1 + i] == p[i]
            &&& f[al + u.len() + 1 + p.len()] == '/'
            &&& forall|i: int| 0 <= i < r.len() ==> f[al + u.len() + 1 + p.len() + 1 + i] == r[i]
        }),
{
}

} // verus!
