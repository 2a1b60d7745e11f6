//! Resolution of the ordered integration-commit sequence between two boundaries, from a
//! local repository walked along first parents or from a paginated remote listing.
use vstd::prelude::*;
use crate::commit::{Commit, ResolveError};
use crate::text::{find_char, find_from, find_str, index_from, lemma_find_from_bounds, slice};
use vstd::string::StrSliceExecFns;

verus! {

/// The author name of the integration bot.
pub const INTEGRATION_AUTHOR: &'static str = "bors";

/// The first boundary of the searched history.
pub const EPOCH_COMMIT: &'static str = "927c55d86b0be44337f37cf5b0a76fb8ba86e06c";

/// The last boundary of the searched history.
pub const LATEST_REVISION: &'static str = "master";

pub open spec fn bot_name() -> Seq<char> {
    seq!['b', 'o', 'r', 's']
}

/// A commit of the local repository together with the name of its author, if it has one.
#[derive(Debug)]
pub struct Node {
    pub commit: Commit,
    pub author: Option<String>,
}

pub open spec fn is_bot(author: Option<String>) -> bool {
    author is Some && author->0@ == bot_name()
}

/// Whether the author name is the integration bot's.
pub fn is_integration_author(author: &Option<String>) -> (r: bool)
    ensures
        r == is_bot(*author),
{
    match author {
        None => false,
        Some(name) => {
            let bot = INTEGRATION_AUTHOR.to_owned();
            proof {
                reveal_strlit("bors");
                assert(bot@ =~= bot_name());
            }
            *name == bot
        },
    }
}

/// What one step of the first-parent walk decides.
#[derive(Debug, Clone, Copy, PartialEq, Eq, Structural)]
pub enum Step {
    /// The parent is an integration commit: it is the next commit to visit.
    Advance,
    /// The parent is not an integration commit: skip it and visit its own first parent.
    Skip,
    /// The parent is the first boundary: the walk is complete.
    Reached,
}

/// One step of the walk from `current`, given its first parent and that parent's first parent.
pub open spec fn step_spec(
    current: Node,
    parent: Option<Node>,
    grandparent: Option<Node>,
    first: Seq<char>,
) -> Result<Step, ResolveError> {
    if !is_bot(current.author) {
        Err(ResolveError::NotIntegrationCommit)
    } else {
        match parent {
            None => Err(ResolveError::Exhausted),
            Some(p) => if !is_bot(p.author) {
                if grandparent is None {
                    Err(ResolveError::Exhausted)
                } else {
                    Ok(Step::Skip)
                }
            } else if p.commit.sha@ == first {
                Ok(Step::Reached)
            } else {
                Ok(Step::Advance)
            },
        }
    }
}

/// The outcome of visiting one commit.
#[derive(Debug)]
pub enum Visit {
    /// Visit this commit next.
    Next(Node),
    /// The walk reached the first boundary: the sequence in chronological order.
    Done(Vec<Commit>),
}

/// The state of a walk from the last boundary back to the first along first parents: the
/// identity of the first boundary and the commits visited so far, newest first.
pub struct LocalWalk {
    pub first_sha: String,
    pub visited: Vec<Commit>,
}

impl LocalWalk {
    /// Starts a walk between two boundaries; both must be integration commits.
    pub fn start(first: &Node, last: &Node) -> (r: Result<LocalWalk, ResolveError>)
        ensures
            r is Ok <==> is_bot(first.author) && is_bot(last.author),
            r is Err ==> r == Err::<LocalWalk, ResolveError>(ResolveError::NotIntegrationCommit),
            r matches Ok(w) ==> w.first_sha@ == first.commit.sha@ && w.visited@.len() == 0,
    {
        if !is_integration_author(&first.author) || !is_integration_author(&last.author) {
            return Err(ResolveError::NotIntegrationCommit);
        }
        Ok(LocalWalk { first_sha: first.commit.sha(), visited: Vec::new() })
    }

    /// Visits `current`, given its first parent and that parent's first parent (`None` where
    /// the history ends). On success `current` joins the visited commits; where its parent
    /// is the first boundary, the whole sequence comes back in chronological order.
    pub fn visit(&mut self, current: Node, parent: Option<Node>, grandparent: Option<Node>) -> (r:
        Result<Visit, ResolveError>)
        ensures
            final(self).first_sha == old(self).first_sha,
            step_spec(current, parent, grandparent, old(self).first_sha@) matches Err(e) ==> r
                == Err::<Visit, ResolveError>(e),
            step_spec(current, parent, grandparent, old(self).first_sha@) == Ok::<
                Step,
                ResolveError,
            >(Step::Advance) ==> (r matches Ok(Visit::Next(n)) && Some(n) == parent
                && final(self).visited@ == old(self).visited@.push(current.commit)),
            step_spec(current, parent, grandparent, old(self).first_sha@) == Ok::<
                Step,
                ResolveError,
            >(Step::Skip) ==> (r matches Ok(Visit::Next(n)) && Some(n) == grandparent
                && final(self).visited@ == old(self).visited@.push(current.commit)),
            step_spec(current, parent, grandparent, old(self).first_sha@) == Ok::<
                Step,
                ResolveError,
            >(Step::Reached) ==> (r matches Ok(Visit::Done(v)) && v@ == old(self).visited@.push(
                current.commit,
            ).push(parent->0.commit).reverse()),
    {
        if !is_integration_author(&current.author) {
            return Err(ResolveError::NotIntegrationCommit);
        }
        match parent {
            None => Err(ResolveError::Exhausted),
            Some(p) => {
                if !is_integration_author(&p.author) {
                    match grandparent {
                        None => Err(ResolveError::Exhausted),
                        Some(g) => {
                            self.visited.push(current.commit);
                            Ok(Visit::Next(g))
                        },
                    }
                } else if p.commit.sha == self.first_sha {
                    self.visited.push(current.commit);
                    self.visited.push(p.commit);
                    let v = reversed(&mut self.visited);
                    Ok(Visit::Done(v))
                } else {
                    self.visited.push(current.commit);
                    Ok(Visit::Next(p))
                }
            },
        }
    }
}

/// Takes the commits out of `v` and returns them in reverse order.
pub fn reversed(v: &mut Vec<Commit>) -> (r: Vec<Commit>)
    ensures
        r@ == old(v)@.reverse(),
        final(v)@.len() == 0,
{
    let mut r: Vec<Commit> = Vec::new();
    let ghost orig = v@;
    while v.len() > 0
        invariant
            orig.len() == v@.len() + r@.len(),
            v@ == orig.take(v@.len() as int),
            r@ == orig.skip(v@.len() as int).reverse(),
        decreases v@.len(),
    {
        let c = v.pop().unwrap();
        r.push(c);
        assert(r@ =~= orig.skip(v@.len() as int).reverse());
    }
    assert(orig.skip(0) =~= orig);
    r
}

/// Some commit of `s` has the identity `sha`.
pub open spec fn has_sha(s: Seq<Commit>, sha: Seq<char>) -> bool {
    exists|i: int| 0 <= i < s.len() && #[trigger] s[i].sha@ == sha
}

/// `p` is the position of the first commit of `s` with the identity `sha`.
pub open spec fn is_first_position(s: Seq<Commit>, sha: Seq<char>, p: int) -> bool {
    &&& 0 <= p < s.len()
    &&& s[p].sha@ == sha
    &&& forall|j: int| 0 <= j < p ==> #[trigger] s[j].sha@ != sha
}

/// The commits are in strictly ascending order of time.
pub open spec fn ascending(s: Seq<Commit>) -> bool {
    forall|i: int, j: int| 0 <= i < j < s.len() ==> #[trigger] s[i].date < #[trigger] s[j].date
}

/// Adds one page of a newest-first listing to the commits gathered so far and decides how
/// to go on: `Ok(None)` once the first boundary has been listed, the next page's address
/// where there is one, and an error where the listing ends before the boundary.
pub fn absorb_page(
    commits: &mut Vec<Commit>,
    page: Vec<Commit>,
    first_sha: &str,
    next_page: Option<String>,
) -> (r: Result<Option<String>, ResolveError>)
    ensures
        final(commits)@ == old(commits)@ + page@,
        has_sha(final(commits)@, first_sha@) ==> r == Ok::<Option<String>, ResolveError>(None),
        !has_sha(final(commits)@, first_sha@) && next_page is Some ==> r == Ok::<
            Option<String>,
            ResolveError,
        >(next_page),
        !has_sha(final(commits)@, first_sha@) && next_page is None ==> r == Err::<
            Option<String>,
            ResolveError,
        >(ResolveError::NoNextPage),
{
    let mut page = page;
    commits.append(&mut page);
    if position_of(commits, first_sha).is_some() {
        return Ok(None);
    }
    match next_page {
        Some(url) => Ok(Some(url)),
        None => Err(ResolveError::NoNextPage),
    }
}

/// The position of the first commit of `commits` with the identity `sha`.
pub fn position_of(commits: &Vec<Commit>, sha: &str) -> (r: Option<usize>)
    ensures
        r is None <==> !has_sha(commits@, sha@),
        r matches Some(p) ==> is_first_position(commits@, sha@, p as int),
{
    let target = sha.to_owned();
    let mut i: usize = 0;
    while i < commits.len()
        invariant
            target@ == sha@,
            i <= commits@.len(),
            forall|j: int| 0 <= j < i ==> #[trigger] commits@[j].sha@ != sha@,
        decreases commits@.len() - i,
    {
        if commits[i].sha == target {
            return Some(i);
        }
        i = i + 1;
    }
    None
}

/// Turns a newest-first listing into the chronological sequence that ends at the newest
/// commit and starts at the first boundary: what lies beyond the boundary is dropped.
pub fn finish_listing(commits: Vec<Commit>, first_sha: &str) -> (r: Result<
    Vec<Commit>,
    ResolveError,
>)
    ensures
        r is Err <==> !has_sha(commits@, first_sha@),
        r is Err ==> r == Err::<Vec<Commit>, ResolveError>(ResolveError::FirstNotFound),
        r matches Ok(v) ==> exists|p: int|
            is_first_position(commits@, first_sha@, p) && v@ == commits@.take(p + 1).reverse(),
{
    match position_of(&commits, first_sha) {
        None => Err(ResolveError::FirstNotFound),
        Some(p) => {
            let mut commits = commits;
            let ghost orig = commits@;
            assert(p < commits.len());
            commits.truncate(p + 1);
            assert(commits@ =~= orig.take(p + 1));
            let v = reversed(&mut commits);
            Ok(v)
        },
    }
}

/// Checks that the commits are in strictly ascending order of time.
pub fn check_order(commits: &Vec<Commit>) -> (r: Result<(), ResolveError>)
    ensures
        r is Ok <==> ascending(commits@),
        r is Err ==> r == Err::<(), ResolveError>(ResolveError::OutOfOrder),
{
    let mut k: usize = 1;
    while k < commits.len()
        invariant
            1 <= k,
            forall|i: int, j: int| 0 <= i < j < k && j < commits@.len() ==> #[trigger] commits@[i].date < #[trigger] commits@[j].date,
        decreases commits@.len() - k,
    {
        if commits[k - 1].date >= commits[k].date {
            return Err(ResolveError::OutOfOrder);
        }
        assert forall|i: int, j: int| 0 <= i < j < k + 1 && j < commits@.len() implies #[trigger] commits@[i].date < #[trigger] commits@[j].date by {
            if j == k && i < k - 1 {
                assert(commits@[i].date < commits@[k - 1].date);
            }
        }
        k = k + 1;
    }
    Ok(())
}

/// Accepts a resolved sequence for the search: it must start at the boundary `start` and
/// be in strictly ascending order of time.
pub fn get_commits(start: &str, resolved: Vec<Commit>) -> (r: Result<Vec<Commit>, ResolveError>)
    ensures
        r is Ok <==> resolved@.len() > 0 && resolved@[0].sha@ == start@ && ascending(resolved@),
        r matches Ok(v) ==> v@ == resolved@,
        resolved@.len() == 0 || resolved@[0].sha@ != start@ ==> r == Err::<
            Vec<Commit>,
            ResolveError,
        >(ResolveError::WrongStart),
        resolved@.len() > 0 && resolved@[0].sha@ == start@ && !ascending(resolved@) ==> r
            == Err::<Vec<Commit>, ResolveError>(ResolveError::OutOfOrder),
{
    let start = start.to_owned();
    if resolved.len() == 0 || resolved[0].sha != start {
        return Err(ResolveError::WrongStart);
    }
    match check_order(&resolved) {
        Ok(()) => Ok(resolved),
        Err(e) => Err(e),
    }
}

/// Builds a commit from a listed identity and its RFC 3339 commit date.
pub fn parse_commit(sha: String, date: &str, summary: String) -> (r: Result<Commit, ResolveError>)
    ensures
        rfc3339_seconds(date@) is None ==> r == Err::<Commit, ResolveError>(ResolveError::BadDate),
        rfc3339_seconds(date@) matches Some(t) ==> (r matches Ok(c) && c.sha == sha && c.date == t
            && c.summary == summary),
{
    match parse_rfc3339_seconds(date) {
        None => Err(ResolveError::BadDate),
        Some(t) => Ok(Commit::new(sha, t, summary)),
    }
}

/// The instant that an RFC 3339 date-and-time string denotes, in seconds since the Unix
/// epoch, or `None` where the string is not such a value.
pub uninterp spec fn rfc3339_seconds(s: Seq<char>) -> Option<i64>;

/// Relies on chrono's `DateTime::parse_from_rfc3339`, and on `DateTime::timestamp` to read
/// the parsed instant as seconds since the epoch.
#[verifier::external_body]
fn parse_rfc3339_seconds(s: &str) -> (r: Option<i64>)
    ensures
        r == rfc3339_seconds(s@),
{
    chrono::DateTime::parse_from_rfc3339(s).ok().map(|d| d.timestamp())
}

/// A sequence in strictly ascending order of time holds no commit twice: any two of its
/// positions differ in time, hence in identity.
pub proof fn lemma_ascending_has_no_duplicates(s: Seq<Commit>)
    requires
        ascending(s),
    ensures
        forall|i: int, j: int| 0 <= i < j < s.len() ==> #[trigger] s[i] != #[trigger] s[j],
{
    assert forall|i: int, j: int| 0 <= i < j < s.len() implies #[trigger] s[i] != #[trigger] s[j] by {
        assert(s[i].date < s[j].date);
    }
}

/// The address between the leading `<` and the first `>` of a link.
pub open spec fn link_target(seg: Seq<char>) -> Option<Seq<char>> {
    let g = index_from(seg, '>', 0);
    if 1 <= g < seg.len() {
        Some(seg.subrange(1, g))
    } else {
        None
    }
}

/// The target of the first `rel="next"` link of a `Link` header, from position `i` on; the
/// links are separated by `", "`.
pub open spec fn next_link_from(s: Seq<char>, i: int) -> Option<Seq<char>>
    decreases s.len() + 1 - i,
{
    if i < 0 || i > s.len() {
        None
    } else {
        let e = find_from(s, ", "@, i);
        let seg = s.subrange(i, e);
        if find_from(seg, "rel=\"next"@, 0) < seg.len() {
            link_target(seg)
        } else if e >= s.len() || e < i {
            None
        } else {
            next_link_from(s, e + 2)
        }
    }
}

/// The address of the next page named by a `Link` response header, if it names one.
pub fn next_page_link(header: &str) -> (r: Option<String>)
    ensures
        r is Some <==> next_link_from(header@, 0) is Some,
        r matches Some(u) ==> Some(u@) == next_link_from(header@, 0),
{
    let n = header.unicode_len();
    let mut i: usize = 0;
    while i <= n
        invariant
            n == header@.len(),
            next_link_from(header@, 0) == next_link_from(header@, i as int),
        decreases n + 1 - i,
    {
        let e = find_str(header, ", ", i);
        proof {
            lemma_find_from_bounds(header@, ", "@, i as int);
            reveal_strlit(", ");
        }
        let seg = slice(header, i, e);
        let seg_len = seg.as_str().unicode_len();
        if find_str(seg.as_str(), "rel=\"next", 0) < seg_len {
            let g = find_char(seg.as_str(), '>', 0);
            if 1 <= g && g < seg_len {
                return Some(slice(seg.as_str(), 1, g));
            }
            return None;
        }
        if e >= n || n - e < 2 {
            assert(e < n ==> next_link_from(header@, e + 2) is None);
            return None;
        }
        i = e + 2;
    }
    None
}

/// The node at position `i` of a chain, if there is one.
pub open spec fn node_at(chain: Seq<Node>, i: int) -> Option<Node> {
    if 0 <= i < chain.len() {
        Some(chain[i])
    } else {
        None
    }
}

/// The walk from position `i` of a first-parent chain (newest first, each node's first
/// parent next), step by step as `LocalWalk::visit` takes it: the commits visited, newest
/// first.
pub open spec fn walk_from(chain: Seq<Node>, first: Seq<char>, i: int) -> Result<
    Seq<Commit>,
    ResolveError,
>
    decreases chain.len() - i,
{
    if i < 0 || i >= chain.len() {
        Err(ResolveError::Exhausted)
    } else {
        match step_spec(chain[i], node_at(chain, i + 1), node_at(chain, i + 2), first) {
            Err(e) => Err(e),
            Ok(Step::Reached) => Ok(seq![chain[i].commit, chain[i + 1].commit]),
            Ok(Step::Advance) => match walk_from(chain, first, i + 1) {
                Ok(r) => Ok(seq![chain[i].commit] + r),
                Err(e) => Err(e),
            },
            Ok(Step::Skip) => match walk_from(chain, first, i + 2) {
                Ok(r) => Ok(seq![chain[i].commit] + r),
                Err(e) => Err(e),
            },
        }
    }
}

/// Resolution from a local repository whose first-parent chain from the last boundary is
/// `chain`: the sequence in chronological order.
pub open spec fn resolve_local(chain: Seq<Node>, first: Node) -> Result<Seq<Commit>, ResolveError> {
    if chain.len() == 0 {
        Err(ResolveError::Exhausted)
    } else if !is_bot(first.author) || !is_bot(chain[0].author) {
        Err(ResolveError::NotIntegrationCommit)
    } else {
        match walk_from(chain, first.commit.sha@, 0) {
            Ok(v) => Ok(v.reverse()),
            Err(e) => Err(e),
        }
    }
}

/// Resolution from a newest-first listing of integration commits, as `finish_listing`
/// performs it.
pub open spec fn resolve_remote(listing: Seq<Commit>, first: Seq<char>) -> Result<
    Seq<Commit>,
    ResolveError,
> {
    if has_sha(listing, first) {
        let p = choose|p: int| is_first_position(listing, first, p);
        Ok(listing.take(p + 1).reverse())
    } else {
        Err(ResolveError::FirstNotFound)
    }
}

/// The commits of the integration bot's nodes of a chain, in chain order: what the remote
/// listing filtered by the bot's name shows of that history.
pub open spec fn bot_commits(chain: Seq<Node>) -> Seq<Commit>
    decreases chain.len(),
{
    if chain.len() == 0 {
        Seq::empty()
    } else {
        (if is_bot(chain[0].author) {
            seq![chain[0].commit]
        } else {
            Seq::empty()
        }) + bot_commits(chain.drop_first())
    }
}

/// The chain is one that the first-parent walk handles: it starts with an integration
/// commit; the first boundary lies at position `f`, is an integration commit and is the
/// only node up to `f` with its identity; and every other commit up to there is followed by
/// an integration commit other than the boundary.
pub open spec fn well_formed_chain(chain: Seq<Node>, f: int) -> bool {
    &&& 1 <= f < chain.len()
    &&& is_bot(chain[0].author)
    &&& is_bot(chain[f].author)
    &&& forall|i: int| 0 <= i < f ==> #[trigger] chain[i].commit.sha@ != chain[f].commit.sha@
    &&& forall|i: int|
        0 <= i < f && !is_bot(#[trigger] chain[i].author) ==> i + 1 < f && is_bot(
            chain[i + 1].author,
        )
}

proof fn lemma_bot_commits_concat(a: Seq<Node>, b: Seq<Node>)
    ensures
        bot_commits(a + b) == bot_commits(a) + bot_commits(b),
    decreases a.len(),
{
    if a.len() == 0 {
        assert(a + b =~= b);
        assert(bot_commits(a) + bot_commits(b) =~= bot_commits(b));
    } else {
        assert((a + b).drop_first() =~= a.drop_first() + b);
        lemma_bot_commits_concat(a.drop_first(), b);
        assert(bot_commits(a + b) =~= bot_commits(a) + bot_commits(b));
    }
}

proof fn lemma_bot_commits_single(n: Node)
    requires
        is_bot(n.author),
    ensures
        bot_commits(seq![n]) == seq![n.commit],
{
    let one = seq![n];
    assert(one.drop_first() =~= Seq::<Node>::empty());
    assert(bot_commits(one.drop_first()) =~= Seq::<Commit>::empty());
    assert(bot_commits(one) =~= seq![n.commit]);
}

proof fn lemma_bot_commits_members(s: Seq<Node>, sha: Seq<char>)
    requires
        forall|i: int| 0 <= i < s.len() ==> #[trigger] s[i].commit.sha@ != sha,
    ensures
        forall|k: int| 0 <= k < bot_commits(s).len() ==> #[trigger] bot_commits(s)[k].sha@ != sha,
    decreases s.len(),
{
    if s.len() > 0 {
        let t = s.drop_first();
        assert forall|i: int| 0 <= i < t.len() implies #[trigger] t[i].commit.sha@ != sha by {
            assert(t[i] == s[i + 1]);
        }
        lemma_bot_commits_members(t, sha);
        let head = if is_bot(s[0].author) {
            seq![s[0].commit]
        } else {
            Seq::<Commit>::empty()
        };
        assert(bot_commits(s) == head + bot_commits(t));
        assert forall|k: int| 0 <= k < bot_commits(s).len() implies #[trigger] bot_commits(
            s,
        )[k].sha@ != sha by {
            if k < head.len() {
                assert(bot_commits(s)[k] == s[0].commit);
            } else {
                assert(bot_commits(s)[k] == bot_commits(t)[k - head.len()]);
            }
        }
    }
}

proof fn lemma_walk_collects_bot_commits(chain: Seq<Node>, f: int, i: int)
    requires
        well_formed_chain(chain, f),
        0 <= i < f,
        is_bot(chain[i].author),
    ensures
        walk_from(chain, chain[f].commit.sha@, i) == Ok::<Seq<Commit>, ResolveError>(
            bot_commits(chain.subrange(i, f + 1)),
        ),
    decreases f - i,
{
    let first = chain[f].commit.sha@;
    let s = chain.subrange(i, f + 1);
    assert(s.drop_first() =~= chain.subrange(i + 1, f + 1));
    assert(s[0] == chain[i]);
    if is_bot(chain[i + 1].author) {
        if i + 1 == f {
            let t = chain.subrange(i + 1, f + 1);
            assert(t =~= seq![chain[f]]);
            lemma_bot_commits_single(chain[f]);
            assert(bot_commits(s) =~= seq![chain[i].commit, chain[f].commit]);
        } else {
            assert(chain[i + 1].commit.sha@ != first);
            lemma_walk_collects_bot_commits(chain, f, i + 1);
            assert(bot_commits(s) =~= seq![chain[i].commit] + bot_commits(
                chain.subrange(i + 1, f + 1),
            ));
        }
    } else {
        assert(i + 1 < f);
        assert(i + 2 < f);
        assert(is_bot(chain[i + 2].author));
        lemma_walk_collects_bot_commits(chain, f, i + 2);
        let t = chain.subrange(i + 1, f + 1);
        assert(t[0] == chain[i + 1]);
        assert(t.drop_first() =~= chain.subrange(i + 2, f + 1));
        assert(bot_commits(t) =~= bot_commits(chain.subrange(i + 2, f + 1)));
        assert(bot_commits(s) =~= seq![chain[i].commit] + bot_commits(
            chain.subrange(i + 2, f + 1),
        ));
    }
}

proof fn lemma_remote_takes_prefix(l: Seq<Commit>, tail: Seq<Commit>, first: Seq<char>)
    requires
        l.len() >= 1,
        l[l.len() - 1].sha@ == first,
        forall|j: int| 0 <= j < l.len() - 1 ==> #[trigger] l[j].sha@ != first,
    ensures
        resolve_remote(l + tail, first) == Ok::<Seq<Commit>, ResolveError>(l.reverse()),
{
    let listing = l + tail;
    let p = l.len() - 1;
    assert(listing[p] == l[p]);
    assert forall|j: int| 0 <= j < p implies #[trigger] listing[j].sha@ != first by {
        assert(listing[j] == l[j]);
    }
    assert(is_first_position(listing, first, p));
    let q = choose|q: int| is_first_position(listing, first, q);
    assert(q == p) by {
        if q < p {
            assert(listing[q].sha@ != first);
        } else if q > p {
            assert(listing[p].sha@ != first);
        }
    }
    assert(listing.take(p + 1) =~= l);
}

/// On a well-formed history, resolving through the local first-parent walk and through the
/// remote listing of the bot's commits gives the same sequence, in the same order.
pub proof fn lemma_local_and_remote_agree(chain: Seq<Node>, f: int)
    requires
        well_formed_chain(chain, f),
    ensures
        resolve_local(chain, chain[f]) == resolve_remote(bot_commits(chain), chain[f].commit.sha@),
        resolve_local(chain, chain[f]) is Ok,
{
    let first = chain[f].commit.sha@;
    lemma_walk_collects_bot_commits(chain, f, 0);
    let head = chain.subrange(0, f);
    let upto = chain.subrange(0, f + 1);
    let rest = chain.subrange(f + 1, chain.len() as int);
    assert(chain =~= upto + rest);
    assert(upto =~= head + seq![chain[f]]);
    lemma_bot_commits_concat(upto, rest);
    lemma_bot_commits_concat(head, seq![chain[f]]);
    lemma_bot_commits_single(chain[f]);
    assert forall|i: int| 0 <= i < head.len() implies #[trigger] head[i].commit.sha@ != first by {
        assert(head[i] == chain[i]);
    }
    lemma_bot_commits_members(head, first);
    let l = bot_commits(upto);
    assert(l == bot_commits(head) + seq![chain[f].commit]);
    assert forall|j: int| 0 <= j < l.len() - 1 implies #[trigger] l[j].sha@ != first by {
        assert(l[j] == bot_commits(head)[j]);
    }
    lemma_remote_takes_prefix(l, bot_commits(rest), first);
}

/// Resolution depends on nothing but the history and the boundaries: resolving the same
/// boundaries twice against the same history gives the same sequence.
pub proof fn lemma_resolution_is_repeatable(
    chain1: Seq<Node>,
    chain2: Seq<Node>,
    first: Node,
    listing1: Seq<Commit>,
    listing2: Seq<Commit>,
)
    requires
        chain1 == chain2,
        listing1 == listing2,
    ensures
        resolve_local(chain1, first) == resolve_local(chain2, first),
        resolve_remote(listing1, first.commit.sha@) == resolve_remote(listing2, first.commit.sha@),
{
}

} // verus!
