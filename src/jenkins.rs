//! The build server: jobs (found through nested folders), builds and
//! triggers, read with basic authentication.
use vstd::prelude::*;
use crate::errors::{ErrorView, IntegrationError};
use crate::http::{
    accept_answer, answer_accepted, answer_document, answer_json, json_of_answer, outcome_view,
    read_json, result_view, ApiRequest, ApiResponse, Auth, Method,
};
use crate::json::{Json, array_spec, bool_spec, get_spec, i64_spec, str_spec, u64_spec};
use crate::text::{
    contains, decimal, decimal_text, has_infix, same_text, signed_decimal, signed_decimal_text,
    trim_end_char, trim_end_slashes, url_encode, url_encoded,
};

verus! {

/// A job (a folder is never one).
#[derive(Debug, Clone, PartialEq, Eq)]
pub struct JenkinsJob {
    /// The full path of the job: the names of its folders and its own, joined by `/`.
    pub name: String,
    pub url: String,
    /// The status colour (`blue`, `red`, `notbuilt`, ...).
    pub color: String,
}

/// A job, with its texts as character sequences.
pub struct JobView {
    pub name: Seq<char>,
    pub url: Seq<char>,
    pub color: Seq<char>,
}

impl View for JenkinsJob {
    type V = JobView;

    open spec fn view(&self) -> JobView {
        JobView { name: self.name@, url: self.url@, color: self.color@ }
    }
}

/// The state of a build.
#[derive(Debug, Clone, Copy, PartialEq, Eq, Structural)]
pub enum JenkinsBuildStatus {
    Success,
    Failure,
    Unstable,
    Aborted,
    NotBuilt,
    Building,
    Pending,
}

/// A build of a job.
#[derive(Debug, Clone, PartialEq, Eq)]
pub struct JenkinsBuild {
    pub number: u32,
    pub status: JenkinsBuildStatus,
    /// Milliseconds since the epoch, in decimal.
    pub timestamp: String,
    pub url: String,
    /// Milliseconds, in decimal, where the server reports it.
    pub duration: Option<String>,
}

/// A build, with its texts as character sequences.
pub struct BuildView {
    pub number: u32,
    pub status: JenkinsBuildStatus,
    pub timestamp: Seq<char>,
    pub url: Seq<char>,
    pub duration: Option<Seq<char>>,
}

impl View for JenkinsBuild {
    type V = BuildView;

    open spec fn view(&self) -> BuildView {
        BuildView {
            number: self.number,
            status: self.status,
            timestamp: self.timestamp@,
            url: self.url@,
            duration: match self.duration {
                Some(d) => Some(d@),
                None => None,
            },
        }
    }
}

/// The status of a build from its `result`. Where the result is absent, a
/// listing (which does not know `building`) reports the build as running,
/// and a build's own document reports it as running if `building` says so,
/// else as pending. An unknown result counts as not built.
pub open spec fn build_status(result: Option<Seq<char>>, building: Option<bool>) -> JenkinsBuildStatus {
    match result {
        Some(r) => if r == "SUCCESS"@ {
            JenkinsBuildStatus::Success
        } else if r == "FAILURE"@ {
            JenkinsBuildStatus::Failure
        } else if r == "UNSTABLE"@ {
            JenkinsBuildStatus::Unstable
        } else if r == "ABORTED"@ {
            JenkinsBuildStatus::Aborted
        } else if r == "NOT_BUILT"@ {
            JenkinsBuildStatus::NotBuilt
        } else {
            JenkinsBuildStatus::NotBuilt
        },
        None => match building {
            None => JenkinsBuildStatus::Building,
            Some(true) => JenkinsBuildStatus::Building,
            Some(false) => JenkinsBuildStatus::Pending,
        },
    }
}

/// The status of a build from its `result` and, in a build's own document,
/// its `building` flag.
pub fn status_of(result: Option<&str>, building: Option<bool>) -> (r: JenkinsBuildStatus)
    ensures
        r == build_status(
            match result {
                Some(s) => Some(s@),
                None => None,
            },
            building,
        ),
{
    match result {
        Some(s) => {
            if same_text(s, "SUCCESS") {
                JenkinsBuildStatus::Success
            } else if same_text(s, "FAILURE") {
                JenkinsBuildStatus::Failure
            } else if same_text(s, "UNSTABLE") {
                JenkinsBuildStatus::Unstable
            } else if same_text(s, "ABORTED") {
                JenkinsBuildStatus::Aborted
            } else {
                JenkinsBuildStatus::NotBuilt
            }
        },
        None => match building {
            Some(false) => JenkinsBuildStatus::Pending,
            _ => JenkinsBuildStatus::Building,
        },
    }
}

/// Each listed result, and an absent one in either view, has its status;
/// every other result counts as not built.
pub proof fn law_build_status_total(other: Seq<char>)
    requires
        other != "SUCCESS"@,
        other != "FAILURE"@,
        other != "UNSTABLE"@,
        other != "ABORTED"@,
        other != "NOT_BUILT"@,
    ensures
        forall|b: Option<bool>| build_status(Some("SUCCESS"@), b) == JenkinsBuildStatus::Success,
        forall|b: Option<bool>| build_status(Some("FAILURE"@), b) == JenkinsBuildStatus::Failure,
        forall|b: Option<bool>| build_status(Some("UNSTABLE"@), b) == JenkinsBuildStatus::Unstable,
        forall|b: Option<bool>| build_status(Some("ABORTED"@), b) == JenkinsBuildStatus::Aborted,
        forall|b: Option<bool>| build_status(Some("NOT_BUILT"@), b) == JenkinsBuildStatus::NotBuilt,
        build_status(None, None) == JenkinsBuildStatus::Building,
        build_status(None, Some(true)) == JenkinsBuildStatus::Building,
        build_status(None, Some(false)) == JenkinsBuildStatus::Pending,
        forall|b: Option<bool>| build_status(Some(other), b) == JenkinsBuildStatus::NotBuilt,
{
    reveal_strlit("SUCCESS");
    reveal_strlit("FAILURE");
    reveal_strlit("UNSTABLE");
    reveal_strlit("ABORTED");
    reveal_strlit("NOT_BUILT");
    assert("FAILURE"@[0] != "SUCCESS"@[0]);
    assert("UNSTABLE"@.len() != "SUCCESS"@.len());
    assert("UNSTABLE"@.len() != "FAILURE"@.len());
    assert("ABORTED"@[0] != "SUCCESS"@[0]);
    assert("ABORTED"@[0] != "FAILURE"@[0]);
    assert("ABORTED"@.len() != "UNSTABLE"@.len());
    assert("NOT_BUILT"@.len() != "SUCCESS"@.len());
    assert("NOT_BUILT"@.len() != "FAILURE"@.len());
    assert("NOT_BUILT"@.len() != "UNSTABLE"@.len());
    assert("NOT_BUILT"@.len() != "ABORTED"@.len());
}

/// The tree filter that a folder listing asks for.
pub const LISTING_TREE: &'static str = "/api/json?tree=jobs[name,url,color,_class]";

/// A folder still to be listed: its path, and the same path as it stands in
/// an address (each name encoded, joined by `/job/`).
#[derive(Debug, Clone, PartialEq, Eq)]
pub struct Folder {
    pub path: String,
    pub encoded: String,
}

/// The endpoint that lists a folder (the root where the path is empty).
pub open spec fn folder_endpoint(path: Seq<char>, encoded: Seq<char>) -> Seq<char> {
    if path.len() == 0 {
        LISTING_TREE@
    } else {
        "/job/"@ + encoded + LISTING_TREE@
    }
}

/// The path of an item named `name` inside the folder at `path`.
pub open spec fn child_path(path: Seq<char>, name: Seq<char>) -> Seq<char> {
    if path.len() == 0 {
        name
    } else {
        path + "/"@ + name
    }
}

/// The address form of that path.
pub open spec fn child_encoded(path: Seq<char>, encoded: Seq<char>, name: Seq<char>) -> Seq<char> {
    if path.len() == 0 {
        url_encoded(name)
    } else {
        encoded + "/job/"@ + url_encoded(name)
    }
}

/// Whether a listed item can be read: it has a name and an address.
pub open spec fn entry_usable(item: Json) -> bool {
    str_spec(get_spec(item, "name"@)) is Some && str_spec(get_spec(item, "url"@)) is Some
}

/// The name of a listed item.
pub open spec fn entry_name(item: Json) -> Seq<char> {
    str_spec(get_spec(item, "name"@))->0@
}

/// The address of a listed item.
pub open spec fn entry_url(item: Json) -> Seq<char> {
    str_spec(get_spec(item, "url"@))->0@
}

/// The colour of a listed item; `notbuilt` where it has none.
pub open spec fn entry_color(item: Json) -> Seq<char> {
    match str_spec(get_spec(item, "color"@)) {
        Some(c) => c@,
        None => "notbuilt"@,
    }
}

/// Whether a listed item is a folder: its class name holds `Folder`, or its
/// colour is the `folder` marker.
pub open spec fn entry_is_folder(item: Json) -> bool {
    (match str_spec(get_spec(item, "_class"@)) {
        Some(c) => has_infix(c@, "Folder"@),
        None => false,
    }) || entry_color(item) == "folder"@
}

/// The folders that the items of the listing of `path` add to the queue.
pub open spec fn sub_folders(path: Seq<char>, encoded: Seq<char>, items: Seq<Json>) -> Seq<(Seq<char>, Seq<char>)>
    decreases items.len(),
{
    if items.len() == 0 {
        seq![]
    } else {
        let before = sub_folders(path, encoded, items.drop_last());
        let item = items.last();
        if entry_usable(item) && entry_is_folder(item) {
            before.push((
                child_path(path, entry_name(item)),
                child_encoded(path, encoded, entry_name(item)),
            ))
        } else {
            before
        }
    }
}

/// The job that an item of the listing of `path` stands for; none for a
/// folder or an item without name or address.
pub open spec fn job_of(path: Seq<char>, item: Json) -> Option<JobView> {
    if entry_usable(item) && !entry_is_folder(item) {
        Some(JobView { name: child_path(path, entry_name(item)), url: entry_url(item), color: entry_color(item) })
    } else {
        None
    }
}

/// The jobs that the items of the listing of `path` contribute, in order.
pub open spec fn listed_jobs(path: Seq<char>, items: Seq<Json>) -> Seq<JobView>
    decreases items.len(),
{
    if items.len() == 0 {
        seq![]
    } else {
        let before = listed_jobs(path, items.drop_last());
        match job_of(path, items.last()) {
            Some(j) => before.push(j),
            None => before,
        }
    }
}

/// The items of a folder listing: the `jobs` array of a successful answer.
/// A listing that failed or has no such array contributes nothing.
pub open spec fn listing_items(outcome: Result<ApiResponse, ErrorView>) -> Option<Seq<Json>> {
    match outcome {
        Err(_) => None,
        Ok(resp) => match json_of_answer(resp.status, resp.body@) {
            Err(_) => None,
            Ok(doc) => array_spec(get_spec(doc, "jobs"@)),
        },
    }
}

/// The jobs of a listing never include a folder: each one is the job of a
/// listed item that is no folder.
pub proof fn law_listing_holds_no_folder(path: Seq<char>, items: Seq<Json>)
    ensures
        forall|k: int| 0 <= k < listed_jobs(path, items).len() ==> exists|i: int|
            0 <= i < items.len() && !entry_is_folder(#[trigger] items[i]) && entry_usable(items[i])
                && job_of(path, items[i]) == Some(#[trigger] listed_jobs(path, items)[k]),
    decreases items.len(),
{
    if items.len() > 0 {
        let rest = items.drop_last();
        law_listing_holds_no_folder(path, rest);
        assert forall|k: int| 0 <= k < listed_jobs(path, items).len() implies exists|i: int|
            0 <= i < items.len() && !entry_is_folder(#[trigger] items[i]) && entry_usable(items[i])
                && job_of(path, items[i]) == Some(#[trigger] listed_jobs(path, items)[k]) by {
            if k < listed_jobs(path, rest).len() {
                let i = choose|i: int| 0 <= i < rest.len() && !entry_is_folder(#[trigger] rest[i]) && entry_usable(rest[i])
                    && job_of(path, rest[i]) == Some(#[trigger] listed_jobs(path, rest)[k]);
                assert(items[i] == rest[i]);
            } else {
                assert(items[items.len() - 1] == items.last());
            }
        }
    }
}

/// A job listed in a folder nested two deep has the path of both folders and
/// its own name, joined by `/`.
pub proof fn law_nested_job_path(a: Seq<char>, b: Seq<char>, job: Seq<char>)
    requires
        a.len() > 0,
    ensures
        child_path(child_path(child_path(""@, a), b), job) == a + "/"@ + b + "/"@ + job,
{
    reveal_strlit("");
    reveal_strlit("/");
    assert(child_path(""@, a) == a);
    assert(child_path(a, b) == a + "/"@ + b);
    assert((a + "/"@ + b).len() > 0);
}

/// The breadth-first listing of all jobs: a queue of folders, the position of
/// the next one to list, and the jobs found so far.
pub struct JobListing {
    queue: Vec<Folder>,
    next: usize,
    jobs: Vec<JenkinsJob>,
    /// Why the root folder could not be listed, if it could not.
    failure: Option<IntegrationError>,
}

/// What the root listing lacks when its answer holds no `jobs` array.
pub const MISSING_JOBS: &'static str = "Invalid response format: missing 'jobs' array";

/// Why a folder listing failed: the error of a failed request or of an
/// error answer, or the lack of a `jobs` array; nothing for a listing that
/// can be read.
pub open spec fn listing_failure(outcome: Result<ApiResponse, ErrorView>) -> Option<ErrorView> {
    match outcome {
        Err(e) => Some(e),
        Ok(resp) => match json_of_answer(resp.status, resp.body@) {
            Err(e) => Some(e),
            Ok(doc) => if array_spec(get_spec(doc, "jobs"@)) is None {
                Some(ErrorView::Config(MISSING_JOBS@))
            } else {
                None
            },
        },
    }
}

/// The state of a job listing: the folders queued (listed ones included),
/// how many have been listed, the jobs found, and why the root could not be
/// listed, if it could not.
pub struct ListingView {
    pub folders: Seq<(Seq<char>, Seq<char>)>,
    pub listed: nat,
    pub found: Seq<JobView>,
    pub failure: Option<ErrorView>,
}

/// The state before anything is listed: the root folder queued.
pub open spec fn listing_start() -> ListingView {
    ListingView { folders: seq![(""@, ""@)], listed: 0, found: seq![], failure: None }
}

/// What the outcome of listing the next folder does: its sub-folders join the
/// queue and its jobs the result. A folder below the root whose listing fails
/// is skipped; the failure of the root listing is kept.
pub open spec fn listing_step(v: ListingView, outcome: Result<ApiResponse, ErrorView>) -> ListingView {
    if v.listed >= v.folders.len() {
        v
    } else {
        let folder = v.folders[v.listed as int];
        let failure = if v.listed == 0 { listing_failure(outcome) } else { v.failure };
        match listing_items(outcome) {
            None => ListingView { folders: v.folders, listed: v.listed + 1, found: v.found, failure },
            Some(items) => ListingView {
                folders: v.folders + sub_folders(folder.0, folder.1, items),
                listed: v.listed + 1,
                found: v.found + listed_jobs(folder.0, items),
                failure,
            },
        }
    }
}

/// The state after the outcomes of listing folders one after the other,
/// starting at the root.
pub open spec fn traverse(outcomes: Seq<Result<ApiResponse, ErrorView>>) -> ListingView
    decreases outcomes.len(),
{
    if outcomes.len() == 0 {
        listing_start()
    } else {
        listing_step(traverse(outcomes.drop_last()), outcomes.last())
    }
}

/// Whether a job stands for a listed item that is no folder.
pub open spec fn from_job_item(j: JobView) -> bool {
    exists|path: Seq<char>, item: Json|
        entry_usable(item) && !entry_is_folder(item) && #[trigger] job_of(path, item) == Some(j)
}

/// However the listings of the folders turn out, every job that a traversal
/// finds stands for a listed item that is no folder: folders are only ever
/// traversed, never returned.
pub proof fn law_traversal_returns_no_folder(outcomes: Seq<Result<ApiResponse, ErrorView>>)
    ensures
        forall|k: int| 0 <= k < traverse(outcomes).found.len() ==> from_job_item(#[trigger] traverse(outcomes).found[k]),
    decreases outcomes.len(),
{
    if outcomes.len() > 0 {
        let before = traverse(outcomes.drop_last());
        law_traversal_returns_no_folder(outcomes.drop_last());
        let after = traverse(outcomes);
        if before.listed < before.folders.len() {
            let folder = before.folders[before.listed as int];
            match listing_items(outcomes.last()) {
                None => {},
                Some(items) => {
                    law_listing_holds_no_folder(folder.0, items);
                    assert forall|k: int| 0 <= k < after.found.len() implies from_job_item(#[trigger] after.found[k]) by {
                        if k < before.found.len() {
                            assert(after.found[k] == before.found[k]);
                        } else {
                            let m = k - before.found.len();
                            assert(after.found[k] == listed_jobs(folder.0, items)[m]);
                            let i = choose|i: int| 0 <= i < items.len() && !entry_is_folder(#[trigger] items[i])
                                && entry_usable(items[i]) && job_of(folder.0, items[i]) == Some(#[trigger] listed_jobs(folder.0, items)[m]);
                            assert(job_of(folder.0, items[i]) == Some(after.found[k]));
                        }
                    }
                },
            }
        }
    }
}

/// Once the root has been listed, the traversal keeps the root listing's
/// failure, whatever the later listings give: a root that cannot be listed
/// (refused credentials, an error answer, a malformed answer) surfaces.
pub proof fn law_root_failure_kept(outcomes: Seq<Result<ApiResponse, ErrorView>>)
    requires
        outcomes.len() > 0,
    ensures
        traverse(outcomes).failure == listing_failure(outcomes[0]),
        traverse(outcomes).listed >= 1,
    decreases outcomes.len(),
{
    let before = traverse(outcomes.drop_last());
    if outcomes.len() > 1 {
        law_root_failure_kept(outcomes.drop_last());
        assert(outcomes.drop_last()[0] == outcomes[0]);
        assert(traverse(outcomes) == listing_step(before, outcomes.last()));
    } else {
        assert(outcomes.drop_last().len() == 0);
        assert(before == listing_start());
        assert(outcomes.last() == outcomes[0]);
        assert(listing_start().folders.len() == 1);
        assert(traverse(outcomes) == listing_step(before, outcomes.last()));
    }
}

impl JobListing {
    /// The folders queued so far (listed ones included), as (path, address form).
    pub closed spec fn folders(&self) -> Seq<(Seq<char>, Seq<char>)> {
        self.queue@.map_values(|f: Folder| (f.path@, f.encoded@))
    }

    /// How many folders have been listed.
    pub closed spec fn listed(&self) -> nat {
        self.next as nat
    }

    /// The jobs found so far.
    pub closed spec fn found(&self) -> Seq<JobView> {
        self.jobs@.map_values(|j: JenkinsJob| j@)
    }

    /// Why the root could not be listed, if it could not.
    pub closed spec fn failed(&self) -> Option<ErrorView> {
        match self.failure {
            Some(e) => Some(e@),
            None => None,
        }
    }

    /// The state of the listing.
    pub open spec fn state(&self) -> ListingView {
        ListingView { folders: self.folders(), listed: self.listed(), found: self.found(), failure: self.failed() }
    }

    /// A listing that starts at the root folder.
    pub fn new() -> (r: JobListing)
        ensures
            r.state() == listing_start(),
    {
        let root = Folder { path: String::new(), encoded: String::new() };
        let mut queue: Vec<Folder> = Vec::new();
        queue.push(root);
        let r = JobListing { queue, next: 0, jobs: Vec::new(), failure: None };
        proof {
            reveal_strlit("");
            assert(""@ =~= Seq::<char>::empty());
            assert(r.folders() =~= seq![(""@, ""@)]);
            assert(r.found() =~= Seq::<JobView>::empty());
        }
        r
    }

    /// The next folder to list, if any is left.
    pub fn next_folder(&self) -> (r: Option<&Folder>)
        ensures
            self.listed() < self.folders().len() ==> (r matches Some(f)
                && (f.path@, f.encoded@) == self.folders()[self.listed() as int]),
            self.listed() >= self.folders().len() ==> r is None,
    {
        if self.next < self.queue.len() {
            Some(&self.queue[self.next])
        } else {
            None
        }
    }

    /// Takes in the outcome of listing the next folder: its sub-folders join
    /// the queue and its jobs the result. A folder below the root that cannot
    /// be listed is skipped; a root that cannot be listed is kept as the
    /// listing's failure.
    pub fn absorb(&mut self, outcome: Result<ApiResponse, IntegrationError>)
        ensures
            final(self).state() == listing_step(old(self).state(), outcome_view(outcome)),
            old(self).listed() < old(self).folders().len() ==> {
                let folder = old(self).folders()[old(self).listed() as int];
                &&& final(self).listed() == old(self).listed() + 1
                &&& match listing_items(outcome_view(outcome)) {
                    None => final(self).folders() == old(self).folders()
                        && final(self).found() == old(self).found(),
                    Some(items) => final(self).folders() == old(self).folders() + sub_folders(folder.0, folder.1, items)
                        && final(self).found() == old(self).found() + listed_jobs(folder.0, items),
                }
            },
            old(self).listed() >= old(self).folders().len() ==> *final(self) == *old(self),
    {
        if self.next >= self.queue.len() {
            return;
        }
        let at_root = self.next == 0;
        if at_root {
            self.failure = None;
        }
        let path = self.queue[self.next].path.clone();
        let encoded = self.queue[self.next].encoded.clone();
        proof {
            assert(old(self).folders()[self.next as int] == (path@, encoded@));
        }
        self.next = self.next + 1;
        assert(self.folders() == old(self).folders());
        let response = match outcome {
            Ok(r) => r,
            Err(e) => {
                if at_root {
                    self.failure = Some(e);
                }
                return;
            },
        };
        let doc = match read_json(&response) {
            Ok(d) => d,
            Err(e) => {
                if at_root {
                    self.failure = Some(e);
                }
                return;
            },
        };
        let items = match doc.get_array("jobs") {
            Some(a) => a,
            None => {
                if at_root {
                    self.failure = Some(IntegrationError::config(MISSING_JOBS));
                }
                return;
            },
        };
        assert(listing_items(outcome_view(outcome)) == Some(items@));
        let ghost queue0 = self.folders();
        let ghost jobs0 = self.found();
        let ghost cursor = self.next;
        let ghost failure0 = self.failed();
        let mut i: usize = 0;
        while i < items.len()
            invariant
                i <= items@.len(),
                self.next == cursor,
                self.failed() == failure0,
                self.next <= self.queue@.len(),
                self.folders() == queue0 + sub_folders(path@, encoded@, items@.subrange(0, i as int)),
                self.found() == jobs0 + listed_jobs(path@, items@.subrange(0, i as int)),
            decreases items@.len() - i,
        {
            let item = &items[i];
            let ghost prefix = items@.subrange(0, i as int);
            proof {
                assert(items@.subrange(0, i + 1).drop_last() =~= prefix);
                assert(items@.subrange(0, i + 1).last() == items@[i as int]);
            }
            match (item.get_str("name"), item.get_str("url")) {
                (Some(name), Some(url)) => {
                    let color = match item.get_str("color") {
                        Some(c) => c.clone(),
                        None => String::from_str("notbuilt"),
                    };
                    let class_says_folder = match item.get_str("_class") {
                        Some(c) => contains(c.as_str(), "Folder"),
                        None => false,
                    };
                    let is_folder = class_says_folder || same_text(color.as_str(), "folder");
                    let full_path = if path.unicode_len() == 0 {
                        name.clone()
                    } else {
                        let mut p = path.clone();
                        p.append("/");
                        p.append(name.as_str());
                        p
                    };
                    if is_folder {
                        let segment = url_encode(name.as_str());
                        let full_encoded = if path.unicode_len() == 0 {
                            segment
                        } else {
                            let mut e = encoded.clone();
                            e.append("/job/");
                            e.append(segment.as_str());
                            e
                        };
                        let ghost before = self.folders();
                        let ghost pair = (full_path@, full_encoded@);
                        let folder = Folder { path: full_path, encoded: full_encoded };
                        self.queue.push(folder);
                        proof {
                            assert(self.folders() =~= before.push(pair));
                            let post = items@.subrange(0, i + 1);
                            assert(post.drop_last() =~= prefix);
                            assert(post.last() == *item);
                            assert(sub_folders(path@, encoded@, post) == sub_folders(path@, encoded@, prefix).push(pair));
                            assert(self.folders() =~= queue0 + sub_folders(path@, encoded@, items@.subrange(0, i + 1)));
                            assert(self.found() =~= jobs0 + listed_jobs(path@, items@.subrange(0, i + 1)));
                        }
                    } else {
                        let ghost before = self.found();
                        let job = JenkinsJob { name: full_path, url: url.clone(), color };
                        let ghost jv = job@;
                        self.jobs.push(job);
                        proof {
                            assert(self.found() =~= before.push(jv));
                            let post = items@.subrange(0, i + 1);
                            assert(post.drop_last() =~= prefix);
                            assert(post.last() == *item);
                            assert(job_of(path@, *item) == Some(jv));
                            assert(listed_jobs(path@, post) == listed_jobs(path@, prefix).push(jv));
                            assert(self.folders() =~= queue0 + sub_folders(path@, encoded@, items@.subrange(0, i + 1)));
                            assert(self.found() =~= jobs0 + listed_jobs(path@, items@.subrange(0, i + 1)));
                        }
                    }
                },
                _ => {
                    proof {
                        assert(self.folders() =~= queue0 + sub_folders(path@, encoded@, items@.subrange(0, i + 1)));
                        assert(self.found() =~= jobs0 + listed_jobs(path@, items@.subrange(0, i + 1)));
                    }
                },
            }
            i = i + 1;
        }
        proof {
            assert(items@.subrange(0, items@.len() as int) =~= items@);
        }
    }

    /// The jobs found, or why the root could not be listed.
    pub fn into_jobs(self) -> (r: Result<Vec<JenkinsJob>, IntegrationError>)
        ensures
            match self.failed() {
                Some(e) => r matches Err(f) && f@ == e,
                None => r matches Ok(v) && v@.map_values(|j: JenkinsJob| j@) == self.found(),
            },
    {
        match self.failure {
            Some(e) => Err(e),
            None => Ok(self.jobs),
        }
    }
}

/// What a build lacks when its document has no number.
pub const MISSING_NUMBER: &'static str = "Invalid build format: missing 'number'";

/// What a build lacks when its document has no address.
pub const MISSING_URL: &'static str = "Invalid build format: missing 'url'";

/// What a build lacks when its document has no timestamp.
pub const MISSING_TIMESTAMP: &'static str = "Invalid build format: missing 'timestamp'";

/// What a list of builds lacks when the answer has another shape.
pub const MISSING_BUILDS: &'static str = "Invalid response format: missing 'builds' array";

/// The build that a document describes, or what it lacks. `building` is the
/// build's own flag where the document is a build's own, none in a listing.
pub open spec fn build_decode(item: Json, building: Option<bool>) -> Result<BuildView, Seq<char>> {
    match u64_spec(get_spec(item, "number"@)) {
        None => Err(MISSING_NUMBER@),
        Some(number) => match str_spec(get_spec(item, "url"@)) {
            None => Err(MISSING_URL@),
            Some(url) => match i64_spec(get_spec(item, "timestamp"@)) {
                None => Err(MISSING_TIMESTAMP@),
                Some(timestamp) => Ok(BuildView {
                    number: number as u32,
                    status: build_status(
                        match str_spec(get_spec(item, "result"@)) {
                            Some(r) => Some(r@),
                            None => None,
                        },
                        building,
                    ),
                    timestamp: signed_decimal(timestamp as int),
                    url: url@,
                    duration: match i64_spec(get_spec(item, "duration"@)) {
                        Some(d) => Some(signed_decimal(d as int)),
                        None => None,
                    },
                }),
            },
        },
    }
}

/// The `building` flag of a build's own document; false where it is absent.
pub open spec fn building_flag(item: Json) -> bool {
    match bool_spec(get_spec(item, "building"@)) {
        Some(b) => b,
        None => false,
    }
}

/// Whether a build matches its description.
pub open spec fn build_agrees(r: Result<JenkinsBuild, IntegrationError>, s: Result<BuildView, Seq<char>>) -> bool {
    match (r, s) {
        (Ok(b), Ok(v)) => b@ == v,
        (Err(e), Err(m)) => e@ == ErrorView::Config(m),
        _ => false,
    }
}

fn build_of(item: &Json, building: Option<bool>) -> (r: Result<JenkinsBuild, IntegrationError>)
    ensures
        build_agrees(r, build_decode(*item, building)),
{
    let number = match item.get_u64("number") {
        Some(n) => n,
        None => return Err(IntegrationError::config(MISSING_NUMBER)),
    };
    let url = match item.get_str("url") {
        Some(u) => u.clone(),
        None => return Err(IntegrationError::config(MISSING_URL)),
    };
    let timestamp = match item.get_i64("timestamp") {
        Some(t) => signed_decimal_text(t),
        None => return Err(IntegrationError::config(MISSING_TIMESTAMP)),
    };
    let duration = match item.get_i64("duration") {
        Some(d) => Some(signed_decimal_text(d)),
        None => None,
    };
    let result = match item.get_str("result") {
        Some(r) => Some(r.as_str()),
        None => None,
    };
    let status = status_of(result, building);
    Ok(JenkinsBuild { number: number as u32, status, timestamp, url, duration })
}

/// The builds that a listing's items describe, or what the first one that
/// cannot be read lacks.
pub open spec fn builds_decode(items: Seq<Json>) -> Result<Seq<BuildView>, Seq<char>>
    decreases items.len(),
{
    if items.len() == 0 {
        Ok(seq![])
    } else {
        match builds_decode(items.drop_last()) {
            Err(m) => Err(m),
            Ok(before) => match build_decode(items.last(), None) {
                Err(m) => Err(m),
                Ok(b) => Ok(before.push(b)),
            },
        }
    }
}

proof fn lemma_builds_fault_stays(items: Seq<Json>, j: int, k: int)
    requires
        0 <= j <= k <= items.len(),
        builds_decode(items.subrange(0, j)) is Err,
    ensures
        builds_decode(items.subrange(0, k)) == builds_decode(items.subrange(0, j)),
    decreases k - j,
{
    if k > j {
        lemma_builds_fault_stays(items, j, k - 1);
        assert(items.subrange(0, k).drop_last() =~= items.subrange(0, k - 1));
    }
}

/// The builds of a job that the outcome of its builds request lists.
pub open spec fn builds_answer(outcome: Result<ApiResponse, ErrorView>) -> Result<Seq<BuildView>, ErrorView> {
    match answer_document(outcome) {
        Err(e) => Err(e),
        Ok(doc) => match array_spec(get_spec(doc, "builds"@)) {
            None => Err(ErrorView::Config(MISSING_BUILDS@)),
            Some(items) => match builds_decode(items) {
                Ok(bs) => Ok(bs),
                Err(m) => Err(ErrorView::Config(m)),
            },
        },
    }
}

/// The build that the outcome of its details request describes.
pub open spec fn build_answer(outcome: Result<ApiResponse, ErrorView>) -> Result<BuildView, ErrorView> {
    match answer_document(outcome) {
        Err(e) => Err(e),
        Ok(doc) => match build_decode(doc, Some(building_flag(doc))) {
            Ok(b) => Ok(b),
            Err(m) => Err(ErrorView::Config(m)),
        },
    }
}

/// One parameter of a triggered build, as it stands in a query.
pub open spec fn query_pair(p: (String, String)) -> Seq<char> {
    url_encoded(p.0@) + "="@ + url_encoded(p.1@)
}

/// The query of a triggered build: its parameters, joined by `&`.
pub open spec fn build_query(params: Seq<(String, String)>) -> Seq<char>
    decreases params.len(),
{
    if params.len() == 0 {
        seq![]
    } else if params.len() == 1 {
        query_pair(params[0])
    } else {
        build_query(params.drop_last()) + "&"@ + query_pair(params.last())
    }
}

/// The endpoint that starts a build of a job: with parameters where there
/// are some, plainly otherwise.
pub open spec fn trigger_endpoint(job: Seq<char>, params: Option<Seq<(String, String)>>) -> Seq<char> {
    match params {
        Some(ps) => if ps.len() > 0 {
            "/job/"@ + url_encoded(job) + "/buildWithParameters?"@ + build_query(ps)
        } else {
            "/job/"@ + url_encoded(job) + "/build"@
        },
        None => "/job/"@ + url_encoded(job) + "/build"@,
    }
}

/// The endpoint that lists the builds of a job.
pub open spec fn builds_endpoint(job: Seq<char>) -> Seq<char> {
    "/job/"@ + url_encoded(job) + "/api/json?tree=builds[number,result,timestamp,url,duration]"@
}

/// The endpoint that describes one build of a job.
pub open spec fn build_endpoint(job: Seq<char>, number: u32) -> Seq<char> {
    "/job/"@ + url_encoded(job) + "/"@ + decimal(number as nat) + "/api/json"@
}

/// Whether a request is the basic-authenticated request that an adapter makes.
pub open spec fn basic_request(r: ApiRequest, method: Method, url: Seq<char>, user: Seq<char>, secret: Seq<char>) -> bool {
    &&& r.method == method
    &&& r.url@ == url
    &&& r.auth matches Auth::Basic { username, password }
    &&& username@ == user
    &&& password@ == secret
    &&& r.json_body is None
}

/// The adapter of one build server.
pub struct JenkinsAdapter {
    base_url: String,
    username: String,
    password: String,
}

impl JenkinsAdapter {
    /// The base address, without trailing slashes.
    pub closed spec fn base(&self) -> Seq<char> {
        self.base_url@
    }

    /// The user name.
    pub closed spec fn user(&self) -> Seq<char> {
        self.username@
    }

    /// The password or API token.
    pub closed spec fn secret(&self) -> Seq<char> {
        self.password@
    }

    /// An adapter for the server at `base_url`.
    pub fn new(base_url: String, username: String, password: String) -> (r: JenkinsAdapter)
        ensures
            r.base() == trim_end_char(base_url@, '/'),
            r.user() == username@,
            r.secret() == password@,
    {
        JenkinsAdapter { base_url: trim_end_slashes(base_url.as_str()), username, password }
    }

    /// The base address, without trailing slashes.
    pub fn base_text(&self) -> (r: &str)
        ensures
            r@ == self.base(),
    {
        self.base_url.as_str()
    }

    /// The full address of an endpoint.
    pub fn api_url(&self, endpoint: &str) -> (r: String)
        ensures
            r@ == self.base() + endpoint@,
    {
        let mut url = self.base_url.clone();
        url.append(endpoint);
        url
    }

    fn request(&self, method: Method, endpoint: &str) -> (r: ApiRequest)
        ensures
            basic_request(r, method, self.base() + endpoint@, self.user(), self.secret()),
    {
        ApiRequest {
            method,
            url: self.api_url(endpoint),
            auth: Auth::Basic { username: self.username.clone(), password: self.password.clone() },
            json_body: None,
        }
    }

    /// The request that lists a folder.
    pub fn folder_request(&self, folder: &Folder) -> (r: ApiRequest)
        ensures
            basic_request(r, Method::Get, self.base() + folder_endpoint(folder.path@, folder.encoded@), self.user(), self.secret()),
    {
        if folder.path.unicode_len() == 0 {
            self.request(Method::Get, LISTING_TREE)
        } else {
            let mut endpoint = String::from_str("/job/");
            endpoint.append(folder.encoded.as_str());
            endpoint.append(LISTING_TREE);
            self.request(Method::Get, endpoint.as_str())
        }
    }

    /// The request that lists the builds of a job.
    pub fn builds_request(&self, job_name: &str) -> (r: ApiRequest)
        ensures
            basic_request(r, Method::Get, self.base() + builds_endpoint(job_name@), self.user(), self.secret()),
    {
        let mut endpoint = String::from_str("/job/");
        let job = url_encode(job_name);
        endpoint.append(job.as_str());
        endpoint.append("/api/json?tree=builds[number,result,timestamp,url,duration]");
        self.request(Method::Get, endpoint.as_str())
    }

    /// The request that describes one build of a job.
    pub fn build_details_request(&self, job_name: &str, build_number: u32) -> (r: ApiRequest)
        ensures
            basic_request(r, Method::Get, self.base() + build_endpoint(job_name@, build_number), self.user(), self.secret()),
    {
        let mut endpoint = String::from_str("/job/");
        let job = url_encode(job_name);
        endpoint.append(job.as_str());
        endpoint.append("/");
        let digits = decimal_text(build_number as u64);
        endpoint.append(digits.as_str());
        endpoint.append("/api/json");
        self.request(Method::Get, endpoint.as_str())
    }

    /// The request that starts a build of a job, with the given parameters.
    pub fn trigger_build_request(&self, job_name: &str, parameters: Option<Vec<(String, String)>>) -> (r: ApiRequest)
        ensures
            basic_request(
                r,
                Method::Post,
                self.base() + trigger_endpoint(
                    job_name@,
                    match parameters {
                        Some(ps) => Some(ps@),
                        None => None,
                    },
                ),
                self.user(),
                self.secret(),
            ),
    {
        let mut endpoint = String::from_str("/job/");
        let job = url_encode(job_name);
        endpoint.append(job.as_str());
        match parameters {
            Some(params) => {
                if params.len() == 0 {
                    endpoint.append("/build");
                } else {
                    endpoint.append("/buildWithParameters?");
                    let query = query_of(&params);
                    endpoint.append(query.as_str());
                }
            },
            None => {
                endpoint.append("/build");
            },
        }
        self.request(Method::Post, endpoint.as_str())
    }

    /// The request that checks the connection.
    pub fn connection_request(&self) -> (r: ApiRequest)
        ensures
            basic_request(r, Method::Get, self.base() + "/api/json?tree=nodeName"@, self.user(), self.secret()),
    {
        self.request(Method::Get, "/api/json?tree=nodeName")
    }

    /// The builds that the outcome of a builds request lists.
    pub fn read_builds(&self, outcome: Result<ApiResponse, IntegrationError>) -> (r: Result<Vec<JenkinsBuild>, IntegrationError>)
        ensures
            match (r, builds_answer(outcome_view(outcome))) {
                (Ok(v), Ok(bs)) => v@.map_values(|b: JenkinsBuild| b@) == bs,
                (Err(e), Err(f)) => e@ == f,
                _ => false,
            },
    {
        let doc = match answer_json(outcome) {
            Ok(d) => d,
            Err(e) => return Err(e),
        };
        let items = match doc.get_array("builds") {
            Some(a) => a,
            None => return Err(IntegrationError::config(MISSING_BUILDS)),
        };
        let mut out: Vec<JenkinsBuild> = Vec::new();
        let mut i: usize = 0;
        proof {
            assert(out@.map_values(|b: JenkinsBuild| b@) =~= Seq::<BuildView>::empty());
            assert(items@.subrange(0, 0) =~= Seq::<Json>::empty());
        }
        while i < items.len()
            invariant
                answer_document(outcome_view(outcome)) == Ok::<Json, ErrorView>(doc),
                array_spec(get_spec(doc, "builds"@)) == Some(items@),
                i <= items@.len(),
                builds_decode(items@.subrange(0, i as int)) == Ok::<Seq<BuildView>, Seq<char>>(out@.map_values(|b: JenkinsBuild| b@)),
            decreases items@.len() - i,
        {
            let ghost prefix = items@.subrange(0, i as int);
            proof {
                assert(items@.subrange(0, i + 1).drop_last() =~= prefix);
                assert(items@.subrange(0, i + 1).last() == items@[i as int]);
            }
            match build_of(&items[i], None) {
                Ok(b) => {
                    let ghost before = out@.map_values(|b: JenkinsBuild| b@);
                    let ghost bv = b@;
                    out.push(b);
                    proof {
                        assert(out@.map_values(|b: JenkinsBuild| b@) =~= before.push(bv));
                    }
                },
                Err(e) => {
                    proof {
                        lemma_builds_fault_stays(items@, i + 1, items@.len() as int);
                        assert(items@.subrange(0, items@.len() as int) =~= items@);
                    }
                    return Err(e);
                },
            }
            i = i + 1;
        }
        proof {
            assert(items@.subrange(0, items@.len() as int) =~= items@);
        }
        Ok(out)
    }

    /// The build that the outcome of a build's details request describes.
    pub fn read_build_details(&self, outcome: Result<ApiResponse, IntegrationError>) -> (r: Result<JenkinsBuild, IntegrationError>)
        ensures
            match (r, build_answer(outcome_view(outcome))) {
                (Ok(b), Ok(v)) => b@ == v,
                (Err(e), Err(f)) => e@ == f,
                _ => false,
            },
    {
        let doc = match answer_json(outcome) {
            Ok(d) => d,
            Err(e) => return Err(e),
        };
        let building = match doc.get_bool("building") {
            Some(b) => b,
            None => false,
        };
        build_of(&doc, Some(building))
    }

    /// Whether the outcome of a trigger request reports success.
    pub fn read_trigger(&self, outcome: Result<ApiResponse, IntegrationError>) -> (r: Result<(), IntegrationError>)
        ensures
            result_view(r) == answer_accepted(outcome_view(outcome)),
    {
        accept_answer(outcome)
    }

    /// Whether the outcome of the connection request proves the connection.
    pub fn check_connection(&self, outcome: Result<ApiResponse, IntegrationError>) -> (r: Result<(), IntegrationError>)
        ensures
            match answer_document(outcome_view(outcome)) {
                Err(e) => r matches Err(f) && f@ == e,
                Ok(_) => r is Ok,
            },
    {
        match answer_json(outcome) {
            Err(e) => Err(e),
            Ok(_) => Ok(()),
        }
    }
}

/// The query of a triggered build.
fn query_of(params: &Vec<(String, String)>) -> (r: String)
    ensures
        r@ == build_query(params@),
{
    let mut q = String::new();
    let mut i: usize = 0;
    while i < params.len()
        invariant
            i <= params@.len(),
            q@ == build_query(params@.subrange(0, i as int)),
        decreases params@.len() - i,
    {
        proof {
            assert(params@.subrange(0, i + 1).drop_last() =~= params@.subrange(0, i as int));
            assert(params@.subrange(0, i + 1).last() == params@[i as int]);
            if i == 0 {
                assert(params@.subrange(0, 1)[0] == params@[0]);
            }
        }
        if i > 0 {
            q.append("&");
        }
        let key = url_encode(params[i].0.as_str());
        let value = url_encode(params[i].1.as_str());
        q.append(key.as_str());
        q.append("=");
        q.append(value.as_str());
        i = i + 1;
    }
    proof {
        assert(params@.subrange(0, params@.len() as int) =~= params@);
    }
    q
}

} // verus!
