use crate::markdown::{MarkdownInput, MarkdownOutput};
use vstd::prelude::*;

verus! {

/// What the frame is created with: explicit content, empty when none is given.
pub struct MarkdownFrameProps {
    pub content: String,
}

/// What the output region shows: HTML injected as it is, without sanitizing.
pub struct Props {
    pub html: String,
}

/// An event of the editor frame.
pub enum MarkdownFrameMsg {
    /// The user changed the text.
    Render(String),
    /// A reply of the conversion worker.
    MarkdownWorker(MarkdownOutput),
}

/// Work the surrounding runtime does for the frame, in the order given.
pub enum FrameEffect {
    /// Send this request to the conversion worker.
    Post(MarkdownInput),
    /// Store this text as the persisted document.
    Persist(String),
}

/// The editor frame: the document being edited, the HTML last delivered, and
/// whether it still waits for its first rendering.
pub struct MarkdownFrame {
    pub markdown: String,
    pub content: String,
    pub loading: bool,
}

/// The frame as values: document, rendered output, loading flag.
pub ghost struct FrameModel {
    pub document: Seq<char>,
    pub rendered: Seq<char>,
    pub loading: bool,
}

impl View for MarkdownFrame {
    type V = FrameModel;

    open spec fn view(&self) -> FrameModel {
        FrameModel { document: self.markdown@, rendered: self.content@, loading: self.loading }
    }
}

/// The starting document: explicit content if it is not empty, else the stored
/// text if there is one, else empty text.
pub open spec fn initial_document(explicit: Seq<char>, stored: Option<Seq<char>>) -> Seq<char> {
    if explicit.len() > 0 {
        explicit
    } else {
        match stored {
            Some(s) => s,
            None => Seq::empty(),
        }
    }
}

/// The stored text, if any, as characters.
pub open spec fn stored_view(stored: Option<String>) -> Option<Seq<char>> {
    match stored {
        Some(s) => Some(s@),
        None => None,
    }
}

/// A frame just created: loading, nothing rendered yet.
pub open spec fn created(explicit: Seq<char>, stored: Option<Seq<char>>) -> FrameModel {
    FrameModel { document: initial_document(explicit, stored), rendered: Seq::empty(), loading: true }
}

/// Whether the event is a rendered reply of the worker.
pub open spec fn is_html_reply(msg: MarkdownFrameMsg) -> bool {
    msg matches MarkdownFrameMsg::MarkdownWorker(MarkdownOutput::Html(_))
}

/// One step of the frame: an edit replaces the document; an HTML reply replaces
/// the output and ends loading, whichever request it answers; a probe value is ignored.
pub open spec fn next(f: FrameModel, msg: MarkdownFrameMsg) -> FrameModel {
    match msg {
        MarkdownFrameMsg::Render(md) => FrameModel { document: md@, ..f },
        MarkdownFrameMsg::MarkdownWorker(MarkdownOutput::Html(h)) => FrameModel {
            rendered: h@,
            loading: false,
            ..f
        },
        MarkdownFrameMsg::MarkdownWorker(MarkdownOutput::Value(_)) => f,
    }
}

/// The frame after the events `msgs`, in order.
pub open spec fn run(f: FrameModel, msgs: Seq<MarkdownFrameMsg>) -> FrameModel
    decreases msgs.len(),
{
    if msgs.len() == 0 {
        f
    } else {
        run(next(f, msgs[0]), msgs.drop_first())
    }
}

/// A frame stays loading through any events exactly as long as it was loading and
/// no HTML reply came among them: edits and probe values never change the flag.
pub proof fn lemma_loading_until_html(f: FrameModel, msgs: Seq<MarkdownFrameMsg>)
    ensures
        run(f, msgs).loading <==> (f.loading && forall|i: int|
            0 <= i < msgs.len() ==> !is_html_reply(#[trigger] msgs[i])),
    decreases msgs.len(),
{
    if msgs.len() > 0 {
        let rest = msgs.drop_first();
        lemma_loading_until_html(next(f, msgs[0]), rest);
        assert forall|i: int| 0 <= i < rest.len() implies #[trigger] rest[i] == msgs[i + 1] by {}
        assert(next(f, msgs[0]).loading == (f.loading && !is_html_reply(msgs[0])));
        if !is_html_reply(msgs[0]) && forall|i: int|
            0 <= i < rest.len() ==> !is_html_reply(#[trigger] rest[i]) {
            assert forall|i: int| 0 <= i < msgs.len() implies !is_html_reply(#[trigger] msgs[i]) by {
                if i > 0 {
                    assert(msgs[i] == rest[i - 1]);
                }
            }
        }
    }
}

/// A frame just created shows "loading" until the first HTML reply is applied,
/// and is ready from then on, whatever edits follow.
pub proof fn lemma_created_frame_loading(
    explicit: Seq<char>,
    stored: Option<Seq<char>>,
    msgs: Seq<MarkdownFrameMsg>,
)
    ensures
        run(created(explicit, stored), msgs).loading <==> forall|i: int|
            0 <= i < msgs.len() ==> !is_html_reply(#[trigger] msgs[i]),
{
    lemma_loading_until_html(created(explicit, stored), msgs);
}

/// Replies are applied in the order they arrive: when the reply for an earlier
/// edit `x` comes after the reply for a later edit `y`, the document is `y` but
/// the output shows the HTML made from `x`.
pub proof fn lemma_late_reply_wins(f: FrameModel, x: String, y: String, hx: String, hy: String)
    ensures
        run(
            f,
            seq![
                MarkdownFrameMsg::Render(x),
                MarkdownFrameMsg::Render(y),
                MarkdownFrameMsg::MarkdownWorker(MarkdownOutput::Html(hy)),
                MarkdownFrameMsg::MarkdownWorker(MarkdownOutput::Html(hx)),
            ],
        ) == (FrameModel { document: y@, rendered: hx@, loading: false }),
{
    let msgs = seq![
        MarkdownFrameMsg::Render(x),
        MarkdownFrameMsg::Render(y),
        MarkdownFrameMsg::MarkdownWorker(MarkdownOutput::Html(hy)),
        MarkdownFrameMsg::MarkdownWorker(MarkdownOutput::Html(hx)),
    ];
    let m1 = msgs.drop_first();
    let m2 = m1.drop_first();
    let m3 = m2.drop_first();
    assert(m1[0] == msgs[1] && m2[0] == msgs[2] && m3[0] == msgs[3]);
    let f1 = next(f, msgs[0]);
    let f2 = next(f1, m1[0]);
    let f3 = next(f2, m2[0]);
    let f4 = next(f3, m3[0]);
    assert(m3.drop_first().len() == 0);
    assert(run(f4, m3.drop_first()) == f4);
    assert(run(f3, m3) == f4);
    assert(run(f2, m2) == f4);
    assert(run(f1, m1) == f4);
    assert(run(f, msgs) == f4);
}

/// With no explicit content and nothing stored the document starts empty, and
/// once the HTML of the empty document (which is empty) arrives, the frame is
/// ready and shows no content.
pub proof fn lemma_empty_fallback(html: String)
    requires
        html@.len() == 0,
    ensures
        created(Seq::empty(), None).document == Seq::<char>::empty(),
        next(
            created(Seq::empty(), None),
            MarkdownFrameMsg::MarkdownWorker(MarkdownOutput::Html(html)),
        ).rendered == Seq::<char>::empty(),
        !next(
            created(Seq::empty(), None),
            MarkdownFrameMsg::MarkdownWorker(MarkdownOutput::Html(html)),
        ).loading,
{
    assert(html@ == Seq::<char>::empty());
}

impl MarkdownFrame {
    /// Creates the frame from its props and the stored document, if any, and
    /// returns the request for the first rendering of the starting document.
    pub fn create(props: &MarkdownFrameProps, stored: Option<String>) -> (r: (
        MarkdownFrame,
        MarkdownInput,
    ))
        ensures
            r.0@ == created(props.content@, stored_view(stored)),
            r.1 matches MarkdownInput::Content(s) && s@ == r.0@.document,
    {
        let md_content = if props.content.as_str().is_empty() {
            match stored {
                Some(s) => s,
                None => String::new(),
            }
        } else {
            props.content.clone()
        };
        let request = MarkdownInput::Content(md_content.clone());
        (MarkdownFrame { markdown: md_content, content: String::new(), loading: true }, request)
    }

    /// Applies one event and returns the work it asks for: an edit posts the new
    /// text for conversion and then persists it; a worker reply asks for nothing.
    pub fn update(&mut self, msg: MarkdownFrameMsg) -> (effects: Vec<FrameEffect>)
        ensures
            final(self)@ == next(old(self)@, msg),
            match msg {
                MarkdownFrameMsg::Render(md) => {
                    &&& effects@.len() == 2
                    &&& effects@[0] matches FrameEffect::Post(MarkdownInput::Content(s))
                    &&& s@ == md@
                    &&& effects@[1] matches FrameEffect::Persist(t)
                    &&& t@ == md@
                },
                MarkdownFrameMsg::MarkdownWorker(_) => effects@.len() == 0,
            },
    {
        let mut effects: Vec<FrameEffect> = Vec::new();
        match msg {
            MarkdownFrameMsg::Render(md) => {
                self.markdown = md.clone();
                effects.push(FrameEffect::Post(MarkdownInput::Content(md)));
                effects.push(FrameEffect::Persist(self.markdown.clone()));
            },
            MarkdownFrameMsg::MarkdownWorker(out) => match out {
                MarkdownOutput::Value(_) => {},
                MarkdownOutput::Html(content) => {
                    self.content = content;
                    self.loading = false;
                },
            },
        }
        effects
    }

    /// The last save, when the frame goes away.
    pub fn destroy(&self) -> (r: FrameEffect)
        ensures
            r matches FrameEffect::Persist(t) && t@ == self@.document,
    {
        FrameEffect::Persist(self.markdown.clone())
    }

    /// What the output region shows: nothing while loading (a placeholder
    /// stands there), else the rendered HTML.
    pub fn view_output(&self) -> (r: Option<String>)
        ensures
            self.loading ==> r is None,
            !self.loading ==> (r matches Some(h) && h@ == self.content@),
    {
        if self.loading {
            None
        } else {
            Some(self.content.clone())
        }
    }
}

} // verus!
