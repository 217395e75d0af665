//! The documents of a project: what they are called, what they begin as, and what the agent is
//! told about them.

use vstd::prelude::*;
use vstd::string::*;

use crate::paths::{joined_path, FilePath, PathView};
use crate::project::ProjectConfig;
use crate::text::{mentions, occurs_at};

verus! {

/// A document that every project has.
#[derive(Debug)]
pub struct DocSpec {
    pub key: &'static str,
    pub file_name: &'static str,
    pub title: &'static str,
    pub subject: &'static str,
}

/// A document as its characters.
pub struct DocView {
    pub key: Seq<char>,
    pub file_name: Seq<char>,
    pub title: Seq<char>,
    pub subject: Seq<char>,
}

impl View for DocSpec {
    type V = DocView;

    open spec fn view(&self) -> DocView {
        DocView {
            key: self.key@,
            file_name: self.file_name@,
            title: self.title@,
            subject: self.subject@,
        }
    }
}

/// The documents that every project has, in their order.
pub open spec fn doc_list() -> Seq<DocView> {
    seq![
        DocView {
            key: "product_information"@,
            file_name: "product-information.md"@,
            title: "Product Information"@,
            subject: "product, features, proof points, and use cases."@,
        },
        DocView {
            key: "marketing_strategy"@,
            file_name: "marketing-strategy.md"@,
            title: "Marketing Strategy"@,
            subject: "ICP, personas, pain points, positioning, and channels."@,
        },
        DocView {
            key: "competitor_analysis"@,
            file_name: "competitor-analysis.md"@,
            title: "Competitor Analysis"@,
            subject: "competitors, alternatives, and positioning gaps."@,
        },
        DocView {
            key: "brand_voice"@,
            file_name: "brand-voice.md"@,
            title: "Brand Voice"@,
            subject: "voice, tone, vocabulary, and public messaging rules."@,
        },
    ]
}

/// The documents that every project has, in their order.
pub fn doc_specs() -> (r: Vec<DocSpec>)
    ensures
        r@.map_values(|d: DocSpec| d@) == doc_list(),
{
    let r = vec![
        DocSpec {
            key: "product_information",
            file_name: "product-information.md",
            title: "Product Information",
            subject: "product, features, proof points, and use cases.",
        },
        DocSpec {
            key: "marketing_strategy",
            file_name: "marketing-strategy.md",
            title: "Marketing Strategy",
            subject: "ICP, personas, pain points, positioning, and channels.",
        },
        DocSpec {
            key: "competitor_analysis",
            file_name: "competitor-analysis.md",
            title: "Competitor Analysis",
            subject: "competitors, alternatives, and positioning gaps.",
        },
        DocSpec {
            key: "brand_voice",
            file_name: "brand-voice.md",
            title: "Brand Voice",
            subject: "voice, tone, vocabulary, and public messaging rules.",
        },
    ];
    assert(r@.map_values(|d: DocSpec| d@) == doc_list());
    r
}

/// A document with what stands in it.
#[derive(Debug)]
pub struct ContextDoc {
    pub key: String,
    pub file_name: String,
    pub title: String,
    pub content: String,
}

/// A document with its content, as characters.
pub struct ContextDocView {
    pub key: Seq<char>,
    pub file_name: Seq<char>,
    pub title: Seq<char>,
    pub content: Seq<char>,
}

impl View for ContextDoc {
    type V = ContextDocView;

    open spec fn view(&self) -> ContextDocView {
        ContextDocView {
            key: self.key@,
            file_name: self.file_name@,
            title: self.title@,
            content: self.content@,
        }
    }
}

/// The text that was read for the document at `i`: nothing where it could not be read.
pub open spec fn content_at(contents: Seq<Option<String>>, i: int) -> Seq<char> {
    if 0 <= i < contents.len() && contents[i] is Some {
        contents[i]->0@
    } else {
        Seq::empty()
    }
}

/// The documents of a project with what was read from their files.
pub open spec fn context_doc_list(contents: Seq<Option<String>>) -> Seq<ContextDocView> {
    doc_list().map(
        |i: int, doc: DocView|
            ContextDocView {
                key: doc.key,
                file_name: doc.file_name,
                title: doc.title,
                content: content_at(contents, i),
            },
    )
}

/// The files to read the documents of a project from, in the order of the documents.
pub open spec fn doc_path_list(project: PathView) -> Seq<Seq<char>> {
    doc_list().map_values(|doc: DocView| joined_path(project, doc.file_name).text)
}

/// The files to read the documents of a project from, in the order of the documents.
pub fn doc_paths(project_path: &FilePath) -> (r: Vec<String>)
    ensures
        r@.map_values(|p: String| p@) == doc_path_list(project_path@),
        r.len() == doc_list().len(),
        forall|i: int|
            0 <= i < r.len() ==> (#[trigger] r[i])@ == joined_path(
                project_path@,
                doc_list()[i].file_name,
            ).text,
{
    let specs = doc_specs();
    let mut out: Vec<String> = Vec::new();
    let mut i: usize = 0;
    while i < specs.len()
        invariant
            i <= specs.len(),
            specs@.map_values(|d: DocSpec| d@) == doc_list(),
            out@.map_values(|p: String| p@) == doc_path_list(project_path@).take(i as int),
        decreases specs.len() - i,
    {
        let ghost held: Seq<String> = out@;
        assert(specs@.map_values(|d: DocSpec| d@)[i as int] == specs@[i as int]@);
        out.push(project_path.join(specs[i].file_name).text);
        assert(out@.map_values(|p: String| p@) == held.map_values(|p: String| p@).push(
            out@[i as int]@,
        ));
        assert(doc_path_list(project_path@).take(i + 1) == doc_path_list(project_path@).take(
            i as int,
        ).push(doc_path_list(project_path@)[i as int]));
        i = i + 1;
    }
    assert(doc_path_list(project_path@).take(i as int) == doc_path_list(project_path@));
    assert forall|k: int| 0 <= k < out.len() implies (#[trigger] out[k])@ == joined_path(
        project_path@,
        doc_list()[k].file_name,
    ).text by {
        assert(out@.map_values(|p: String| p@)[k] == out@[k]@);
    }
    out
}

/// The documents of a project with what was read from their files, in the order of the documents.
/// A file that could not be read counts as empty.
pub fn context_docs(contents: &Vec<Option<String>>) -> (r: Vec<ContextDoc>)
    ensures
        r@.map_values(|d: ContextDoc| d@) == context_doc_list(contents@),
        r.len() == doc_list().len(),
        forall|i: int|
            0 <= i < r.len() ==> (#[trigger] r[i]).content@ == content_at(contents@, i)
                && r[i].file_name@ == doc_list()[i].file_name && r[i].key@ == doc_list()[i].key
                && r[i].title@ == doc_list()[i].title,
{
    let specs = doc_specs();
    let mut out: Vec<ContextDoc> = Vec::new();
    let mut i: usize = 0;
    let ghost wanted: Seq<ContextDocView> = context_doc_list(contents@);
    while i < specs.len()
        invariant
            i <= specs.len(),
            specs@.map_values(|d: DocSpec| d@) == doc_list(),
            wanted == context_doc_list(contents@),
            out@.map_values(|d: ContextDoc| d@) == wanted.take(i as int),
        decreases specs.len() - i,
    {
        let ghost held: Seq<ContextDoc> = out@;
        assert(specs@.map_values(|d: DocSpec| d@)[i as int] == specs@[i as int]@);
        let content = if i < contents.len() {
            match &contents[i] {
                Some(content) => content.clone(),
                None => String::new(),
            }
        } else {
            String::new()
        };
        let doc = ContextDoc {
            key: specs[i].key.to_string(),
            file_name: specs[i].file_name.to_string(),
            title: specs[i].title.to_string(),
            content,
        };
        assert(doc@ == wanted[i as int]);
        out.push(doc);
        assert(out@.map_values(|d: ContextDoc| d@) == held.map_values(|d: ContextDoc| d@).push(
            doc@,
        ));
        assert(wanted.take(i + 1) == wanted.take(i as int).push(wanted[i as int]));
        i = i + 1;
    }
    assert(wanted.take(i as int) == wanted);
    assert forall|k: int| 0 <= k < out.len() implies (#[trigger] out[k]).content@ == content_at(
        contents@,
        k,
    ) && out[k].file_name@ == doc_list()[k].file_name && out[k].key@ == doc_list()[k].key
        && out[k].title@ == doc_list()[k].title by {
        assert(out@.map_values(|d: ContextDoc| d@)[k] == out@[k]@);
    }
    out
}

/// What a document begins as.
pub open spec fn pending_body(title: Seq<char>, website_url: Seq<char>) -> Seq<char> {
    "# "@ + title + "\n\n_Status: pending Codex analysis_\n\nSource URL: "@ + website_url + "\n\n"@
}

/// What a document begins as.
pub fn pending_doc(title: &str, website_url: &str) -> (r: String)
    ensures
        r@ == pending_body(title@, website_url@),
        r@ == "# "@ + title@ + "\n\n_Status: pending Codex analysis_\n\nSource URL: "@ + website_url@
            + "\n\n"@,
{
    "# ".to_string().concat(title).concat(
        "\n\n_Status: pending Codex analysis_\n\nSource URL: ",
    ).concat(website_url).concat("\n\n")
}

/// The documents, each on a line of its own behind a hyphen.
pub open spec fn listed(docs: Seq<DocView>) -> Seq<char>
    decreases docs.len(),
{
    if docs.len() == 0 {
        Seq::empty()
    } else {
        listed(docs.drop_last()) + "- "@ + docs.last().file_name + "\n"@
    }
}

/// The documents, each on a line of its own with what it is about.
pub open spec fn described(docs: Seq<DocView>) -> Seq<char>
    decreases docs.len(),
{
    if docs.len() == 0 {
        Seq::empty()
    } else {
        described(docs.drop_last()) + "- `"@ + docs.last().file_name + "`: "@ + docs.last().subject
            + "\n"@
    }
}

/// What the agent is asked to do first.
pub open spec fn prompt_text(website_url: Seq<char>) -> Seq<char> {
    "# GTM Agent Initial Analysis\n\nYou are running inside a local Codex workspace for GTM Agent.\n\nAnalyze this website: "@
        + website_url
        + "\n\nRewrite exactly these files with concrete, useful findings:\n"@ + listed(doc_list())
        + "\nKeep the files concise but specific enough that future GTM tasks can use them as source context. Include uncertainty where evidence is weak. Do not create outreach drafts, schedules, plugins, or extra strategy files. Do not post publicly or send messages.\n\nAppend progress and completion events to `.gtm-agent/events.jsonl` as JSON lines with eventType, summary, payload, and createdAt.\n"@
}

/// What the agent is told about the folder that it works in.
pub open spec fn agents_text(name: Seq<char>, website_url: Seq<char>) -> Seq<char> {
    "# GTM Agent Project: "@ + name
        + "\n\nThis folder is a local Codex workspace managed by GTM Agent.\n\n## Source of truth\n\n"@
        + described(doc_list())
        + "\n## Event protocol\n\nWhen GTM Agent asks you to report progress, append JSON lines to `.gtm-agent/events.jsonl` with `eventType`, `summary`, `payload`, and `createdAt`.\n\nWebsite: "@
        + website_url + "\n"@
}

/// The documents, each on a line of its own behind a hyphen.
fn list_docs() -> (r: String)
    ensures
        r@ == listed(doc_list()),
{
    let specs = doc_specs();
    let mut out = String::new();
    let mut i: usize = 0;
    while i < specs.len()
        invariant
            i <= specs.len(),
            specs@.map_values(|d: DocSpec| d@) == doc_list(),
            out@ == listed(doc_list().take(i as int)),
        decreases specs.len() - i,
    {
        assert(specs@.map_values(|d: DocSpec| d@)[i as int] == specs@[i as int]@);
        assert(doc_list().take(i + 1).drop_last() == doc_list().take(i as int));
        out.append("- ");
        out.append(specs[i].file_name);
        out.append("\n");
        i = i + 1;
    }
    assert(doc_list().take(i as int) == doc_list());
    out
}

/// The documents, each on a line of its own with what it is about.
fn describe_docs() -> (r: String)
    ensures
        r@ == described(doc_list()),
{
    let specs = doc_specs();
    let mut out = String::new();
    let mut i: usize = 0;
    while i < specs.len()
        invariant
            i <= specs.len(),
            specs@.map_values(|d: DocSpec| d@) == doc_list(),
            out@ == described(doc_list().take(i as int)),
        decreases specs.len() - i,
    {
        assert(specs@.map_values(|d: DocSpec| d@)[i as int] == specs@[i as int]@);
        assert(doc_list().take(i + 1).drop_last() == doc_list().take(i as int));
        out.append("- `");
        out.append(specs[i].file_name);
        out.append("`: ");
        out.append(specs[i].subject);
        out.append("\n");
        i = i + 1;
    }
    assert(doc_list().take(i as int) == doc_list());
    out
}

/// What the agent is asked to do first in a project.
pub fn initial_analysis_prompt(config: &ProjectConfig) -> (r: String)
    ensures
        r@ == prompt_text(config@.website_url),
{
    let files = list_docs();
    "# GTM Agent Initial Analysis\n\nYou are running inside a local Codex workspace for GTM Agent.\n\nAnalyze this website: ".to_string().concat(
        config.website_url.as_str(),
    ).concat("\n\nRewrite exactly these files with concrete, useful findings:\n").concat(
        files.as_str(),
    ).concat(
        "\nKeep the files concise but specific enough that future GTM tasks can use them as source context. Include uncertainty where evidence is weak. Do not create outreach drafts, schedules, plugins, or extra strategy files. Do not post publicly or send messages.\n\nAppend progress and completion events to `.gtm-agent/events.jsonl` as JSON lines with eventType, summary, payload, and createdAt.\n",
    )
}

/// What the agent is told about the folder that it works in.
pub fn agents_file(name: &str, website_url: &str) -> (r: String)
    ensures
        r@ == agents_text(name@, website_url@),
{
    let files = describe_docs();
    "# GTM Agent Project: ".to_string().concat(name).concat(
        "\n\nThis folder is a local Codex workspace managed by GTM Agent.\n\n## Source of truth\n\n",
    ).concat(files.as_str()).concat(
        "\n## Event protocol\n\nWhen GTM Agent asks you to report progress, append JSON lines to `.gtm-agent/events.jsonl` with `eventType`, `summary`, `payload`, and `createdAt`.\n\nWebsite: ",
    ).concat(website_url).concat("\n")
}

proof fn lemma_mentions_middle(front: Seq<char>, part: Seq<char>, back: Seq<char>)
    ensures
        mentions(front + part + back, part),
{
    let whole = front + part + back;
    assert(whole.subrange(front.len() as int, (front.len() + part.len()) as int) == part);
    assert(occurs_at(whole, part, front.len() as int));
}

proof fn lemma_mentions_within(front: Seq<char>, s: Seq<char>, back: Seq<char>, part: Seq<char>)
    requires
        mentions(s, part),
    ensures
        mentions(front + s + back, part),
{
    let at = choose|at: int| occurs_at(s, part, at);
    let whole = front + s + back;
    assert(whole.subrange(front.len() + at, front.len() + at + part.len()) == s.subrange(
        at,
        at + part.len(),
    ));
    assert(occurs_at(whole, part, front.len() + at));
}

proof fn lemma_listed(docs: Seq<DocView>, i: int)
    requires
        0 <= i < docs.len(),
    ensures
        mentions(listed(docs), docs[i].file_name),
        mentions(described(docs), docs[i].file_name),
    decreases docs.len(),
{
    let less = docs.drop_last();
    let last = docs.last();
    if i == docs.len() - 1 {
        lemma_mentions_middle(listed(less) + "- "@, last.file_name, "\n"@);
        let tail = "`: "@ + last.subject + "\n"@;
        lemma_mentions_middle(described(less) + "- `"@, last.file_name, tail);
        assert(described(docs) == described(less) + "- `"@ + last.file_name + tail);
    } else {
        lemma_listed(less, i);
        let none = Seq::<char>::empty();
        let line = "- "@ + last.file_name + "\n"@;
        lemma_mentions_within(none, listed(less), line, docs[i].file_name);
        assert(listed(docs) == none + listed(less) + line);
        let long = "- `"@ + last.file_name + "`: "@ + last.subject + "\n"@;
        lemma_mentions_within(none, described(less), long, docs[i].file_name);
        assert(described(docs) == none + described(less) + long);
    }
}

/// The agent is told of every document and of the website, both in what it is asked to do first
/// and in the file that describes its folder.
pub proof fn law_agent_is_told_of_every_document(name: Seq<char>, website_url: Seq<char>, i: int)
    requires
        0 <= i < doc_list().len(),
    ensures
        mentions(prompt_text(website_url), doc_list()[i].file_name),
        mentions(prompt_text(website_url), website_url),
        mentions(agents_text(name, website_url), doc_list()[i].file_name),
        mentions(agents_text(name, website_url), website_url),
        mentions(agents_text(name, website_url), name),
{
    let file = doc_list()[i].file_name;
    lemma_listed(doc_list(), i);
    let ask = "# GTM Agent Initial Analysis\n\nYou are running inside a local Codex workspace for GTM Agent.\n\nAnalyze this website: "@;
    let order = "\n\nRewrite exactly these files with concrete, useful findings:\n"@;
    let rules = "\nKeep the files concise but specific enough that future GTM tasks can use them as source context. Include uncertainty where evidence is weak. Do not create outreach drafts, schedules, plugins, or extra strategy files. Do not post publicly or send messages.\n\nAppend progress and completion events to `.gtm-agent/events.jsonl` as JSON lines with eventType, summary, payload, and createdAt.\n"@;
    lemma_mentions_within(ask + website_url + order, listed(doc_list()), rules, file);
    lemma_mentions_middle(ask, website_url, order + listed(doc_list()) + rules);
    assert(prompt_text(website_url) == ask + website_url + (order + listed(doc_list()) + rules));
    let head = "# GTM Agent Project: "@;
    let truth = "\n\nThis folder is a local Codex workspace managed by GTM Agent.\n\n## Source of truth\n\n"@;
    let protocol = "\n## Event protocol\n\nWhen GTM Agent asks you to report progress, append JSON lines to `.gtm-agent/events.jsonl` with `eventType`, `summary`, `payload`, and `createdAt`.\n\nWebsite: "@;
    let docs = described(doc_list());
    lemma_mentions_within(head + name + truth, docs, protocol + website_url + "\n"@, file);
    assert(agents_text(name, website_url) == head + name + truth + docs + (protocol + website_url
        + "\n"@));
    lemma_mentions_middle(head + name + truth + docs + protocol, website_url, "\n"@);
    lemma_mentions_middle(head, name, truth + docs + protocol + website_url + "\n"@);
    assert(agents_text(name, website_url) == head + name + (truth + docs + protocol + website_url
        + "\n"@));
}

/// What the agent is asked to do first tells websites apart.
pub proof fn law_prompt_tells_websites_apart(website_url: Seq<char>, other: Seq<char>)
    ensures
        prompt_text(website_url) == prompt_text(other) <==> website_url == other,
{
    let ask = "# GTM Agent Initial Analysis\n\nYou are running inside a local Codex workspace for GTM Agent.\n\nAnalyze this website: "@;
    let n = ask.len() as int;
    if prompt_text(website_url) == prompt_text(other) {
        assert(prompt_text(website_url).len() == prompt_text(other).len());
        assert(website_url == prompt_text(website_url).subrange(n, n + website_url.len()));
        assert(other == prompt_text(other).subrange(n, n + other.len()));
    }
}

/// The website stands in what the agent is asked to do first, character for character and in one
/// place; everything else is the same for every website.
pub proof fn law_prompt_differs_only_in_the_website(website_url: Seq<char>)
    ensures
        ({
            let ask = "# GTM Agent Initial Analysis\n\nYou are running inside a local Codex workspace for GTM Agent.\n\nAnalyze this website: "@;
            let blank_prompt = prompt_text(Seq::empty());
            &&& ask.is_prefix_of(blank_prompt)
            &&& prompt_text(website_url) == ask + website_url + blank_prompt.skip(ask.len() as int)
        }),
{
    let ask = "# GTM Agent Initial Analysis\n\nYou are running inside a local Codex workspace for GTM Agent.\n\nAnalyze this website: "@;
    let blank_prompt = prompt_text(Seq::empty());
    let n = ask.len() as int;
    let rest = blank_prompt.skip(n);
    assert(blank_prompt.take(n) == ask);
    assert(prompt_text(website_url).take(n) == ask);
    assert(prompt_text(website_url) == ask + website_url + rest);
}

/// The name and the website of a project stand in the file that describes its folder, character for
/// character and each in one place; everything else is the same for every project.
pub proof fn law_agents_file_differs_only_in_the_project(name: Seq<char>, website_url: Seq<char>)
    ensures
        ({
            let head = "# GTM Agent Project: "@;
            let none = Seq::<char>::empty();
            let nameless = agents_text(none, none);
            let middle = nameless.subrange(head.len() as int, nameless.len() - 1);
            &&& head.is_prefix_of(nameless)
            &&& agents_text(name, website_url) == head + name + middle + website_url + "\n"@
        }),
{
    reveal_strlit("\n");
    let head = "# GTM Agent Project: "@;
    let none = Seq::<char>::empty();
    let nameless = agents_text(none, none);
    let middle = nameless.subrange(head.len() as int, nameless.len() - 1);
    assert(nameless.take(head.len() as int) == head);
    assert(agents_text(name, website_url) == head + name + middle + website_url + "\n"@);
}

/// A document begins with its whole title, says that it is pending, and names the whole website.
pub proof fn law_document_begins_pending(title: Seq<char>, website_url: Seq<char>)
    ensures
        pending_body(title, website_url) == "# "@ + title + (
        "\n\n_Status: pending Codex analysis_\n\nSource URL: "@ + website_url + "\n\n"@),
{
    assert(pending_body(title, website_url) == "# "@ + title + (
    "\n\n_Status: pending Codex analysis_\n\nSource URL: "@ + website_url + "\n\n"@));
}

/// Every document holds the whole of what was read from its own file, and nothing where the file
/// could not be read.
pub proof fn law_document_holds_what_was_read(contents: Seq<Option<String>>, i: int)
    requires
        0 <= i < doc_list().len(),
    ensures
        context_doc_list(contents).len() == doc_list().len(),
        context_doc_list(contents)[i].key == doc_list()[i].key,
        context_doc_list(contents)[i].file_name == doc_list()[i].file_name,
        context_doc_list(contents)[i].title == doc_list()[i].title,
        i < contents.len() && contents[i] is Some ==> context_doc_list(contents)[i].content
            == contents[i]->0@,
        i >= contents.len() || contents[i] is None ==> context_doc_list(contents)[i].content.len()
            == 0,
{
}

/// Every document has a file of its own in the folder of the project.
pub proof fn law_document_lies_in_the_project(project: PathView, i: int)
    requires
        0 <= i < doc_list().len(),
    ensures
        doc_path_list(project).len() == doc_list().len(),
        doc_path_list(project)[i] == joined_path(project, doc_list()[i].file_name).text,
{
}

/// A document is seen by all that it holds.
pub proof fn law_documents_are_seen_whole(doc: ContextDoc, spec_of_doc: DocSpec)
    ensures
        doc@.key == doc.key@,
        doc@.file_name == doc.file_name@,
        doc@.title == doc.title@,
        doc@.content == doc.content@,
        spec_of_doc@.key == spec_of_doc.key@,
        spec_of_doc@.file_name == spec_of_doc.file_name@,
        spec_of_doc@.title == spec_of_doc.title@,
        spec_of_doc@.subject == spec_of_doc.subject@,
{
}

} // verus!
