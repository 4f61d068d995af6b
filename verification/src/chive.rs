//! The crawl state machine: three work queues, a four-stage cycle, and a
//! two-token pacing handshake.  Each paced step performs at most one unit of
//! outside work; the caller carries out the fetch that [`Chiver::plan`]
//! announces and hands its result back to [`Chiver::step`] as a
//! [`FetchEvent`].
use vstd::prelude::*;

use crate::parser::{
    init_chive_pages, page_urls_seq, parse_chive_page, parse_chive_sub, parse_error_message,
    sub_images_spec, ParseError, CARD_SELECTOR, TOTAL_PAGES,
};
use crate::scrape::{doc_attr_seq, selector_parses};
use crate::text::{dec_digits, u32_to_string};
use crate::Download;

verus! {

/// The four phases of the crawl cycle.
#[derive(Debug, Clone, Copy, PartialEq, Eq, Structural)]
pub enum Stage {
    Idle,
    Page,
    SubPage,
    Image,
}

/// The cyclic successor of a stage.
pub open spec fn next_stage(s: Stage) -> Stage {
    match s {
        Stage::Idle => Stage::Page,
        Stage::Page => Stage::SubPage,
        Stage::SubPage => Stage::Image,
        Stage::Image => Stage::Idle,
    }
}

/// What the coming step needs from the network, announced by
/// [`Chiver::plan`]: nothing, the HTML of a page, or the raw bytes of an
/// image.
#[derive(Debug, Clone)]
pub enum FetchPlan {
    NoFetch,
    FetchHtml(String),
    FetchBytes(String),
}

/// What the caller hands back to [`Chiver::step`]: the response that the
/// announced fetch produced, or the transport failure it ran into.
#[derive(Debug, Clone)]
pub enum FetchEvent {
    /// The plan asked for no fetch.
    NotNeeded,
    /// The body text of a successful HTML fetch.
    Text(String),
    /// Status code and body bytes of an image fetch.
    Image(u16, Vec<u8>),
    /// A transport-level failure, with its message.
    Failed(String),
}

/// The crawl session: three stacks of not-yet-visited URLs, the current
/// stage, the running flag, and the count of pacing tokens received since
/// the pacing latch last closed.
#[derive(Debug)]
pub struct Chiver {
    pub pages: Vec<String>,
    pub sub_pages: Vec<String>,
    pub images: Vec<String>,
    pub stage: Stage,
    pub is_running: bool,
    pub pending: u8,
}

/// The error message for a non-200 image response.
pub open spec fn http_error_message(status: u16, url: Seq<char>) -> Seq<char> {
    "Http status: "@ + dec_digits(status as nat) + ", "@ + url
}

impl Chiver {
    /// The pacing latch holds at most one incomplete token.
    pub open spec fn wf(self) -> bool {
        self.pending <= 1
    }

    /// Whether the coming step must fetch a page as HTML: the stage wants to
    /// refill an empty queue from a parent queue that still has a URL.
    pub open spec fn needs_html_fetch(self) -> bool {
        ||| (self.stage is Page && self.sub_pages@.len() == 0 && self.pages@.len() > 0)
        ||| (self.stage is SubPage && self.images@.len() == 0 && self.sub_pages@.len() > 0)
    }

    /// Whether the coming step must fetch an image.
    pub open spec fn needs_image_fetch(self) -> bool {
        self.stage is Image && self.images@.len() > 0
    }

    /// The URL the coming fetch reads: the top of the queue the stage
    /// consumes.
    pub open spec fn fetch_url(self) -> Seq<char> {
        if self.stage is Page {
            self.pages.deep_view().last()
        } else if self.stage is SubPage {
            self.sub_pages.deep_view().last()
        } else {
            self.images.deep_view().last()
        }
    }

    /// Whether `e` is a possible answer to this state's plan.
    pub open spec fn event_ok(self, e: FetchEvent) -> bool {
        if self.needs_html_fetch() {
            e is Text || e is Failed
        } else if self.needs_image_fetch() {
            e is Image || e is Failed
        } else {
            e is NotNeeded
        }
    }

    /// An idle, paced session with empty queues.
    pub fn default() -> (c: Chiver)
        ensures
            c.pages@.len() == 0,
            c.sub_pages@.len() == 0,
            c.images@.len() == 0,
            c.stage is Idle,
            !c.is_running,
            c.pending == 0,
            c.wf(),
    {
        Chiver {
            pages: Vec::new(),
            sub_pages: Vec::new(),
            images: Vec::new(),
            stage: Stage::Idle,
            is_running: false,
            pending: 0,
        }
    }

    /// Receives one pacing token.  The latch opens — the session resumes at
    /// the idle stage — only on the second token of a pair; a lone token
    /// merely stays pending.
    pub fn on_token(&mut self)
        requires
            !old(self).is_running,
            old(self).wf(),
        ensures
            final(self).wf(),
            final(self).is_running <==> old(self).pending == 1,
            final(self).pending == if old(self).pending == 1 {
                0u8
            } else {
                (old(self).pending + 1) as u8
            },
            final(self).pages == old(self).pages,
            final(self).sub_pages == old(self).sub_pages,
            final(self).images == old(self).images,
            final(self).is_running ==> final(self).stage is Idle,
            !final(self).is_running ==> final(self).stage == old(self).stage,
    {
        if self.pending == 1 {
            self.pending = 0;
            self.is_running = true;
            self.stage = Stage::Idle;
        } else {
            self.pending = self.pending + 1;
        }
    }

    /// Announces the single fetch the next step will consume, without
    /// touching the session.
    pub fn plan(&self) -> (p: FetchPlan)
        ensures
            self.needs_html_fetch() ==> (p matches FetchPlan::FetchHtml(u) && u@
                == self.fetch_url()),
            self.needs_image_fetch() ==> (p matches FetchPlan::FetchBytes(u) && u@
                == self.fetch_url()),
            !self.needs_html_fetch() && !self.needs_image_fetch() ==> p is NoFetch,
    {
        match self.stage {
            Stage::Idle => FetchPlan::NoFetch,
            Stage::Page => {
                if self.sub_pages.len() > 0 || self.pages.len() == 0 {
                    FetchPlan::NoFetch
                } else {
                    FetchPlan::FetchHtml(self.pages[self.pages.len() - 1].clone())
                }
            },
            Stage::SubPage => {
                if self.images.len() > 0 || self.sub_pages.len() == 0 {
                    FetchPlan::NoFetch
                } else {
                    FetchPlan::FetchHtml(self.sub_pages[self.sub_pages.len() - 1].clone())
                }
            },
            Stage::Image => {
                if self.images.len() == 0 {
                    FetchPlan::NoFetch
                } else {
                    FetchPlan::FetchBytes(self.images[self.images.len() - 1].clone())
                }
            },
        }
    }
}

/// Everything one step does, stage by stage: which outcome it returns, how
/// the stage moves, and exactly how each queue changes.
pub open spec fn step_spec(o: Chiver, f: Chiver, event: FetchEvent, r: Download) -> bool {
    match o.stage {
        Stage::Idle => {
            &&& r == Download::Progress(1u32)
            &&& f.stage is Page
            &&& f.sub_pages.deep_view() == o.sub_pages.deep_view()
            &&& f.images.deep_view() == o.images.deep_view()
            &&& (o.pages@.len() > 0 ==> f.pages.deep_view() == o.pages.deep_view())
            &&& (o.pages@.len() == 0 ==> f.pages@.len() == TOTAL_PAGES
                && f.pages.deep_view().to_multiset() == page_urls_seq().to_multiset())
        },
        Stage::Page => {
            if o.sub_pages@.len() > 0 {
                &&& r == Download::Progress(10u32)
                &&& f.stage is SubPage
                &&& queues_same(o, f)
            } else if o.pages@.len() == 0 {
                &&& r matches Download::Error(m) && m@ == "Pages is empty!"@
                &&& f.stage == o.stage
                &&& queues_same(o, f)
            } else {
                match event {
                    FetchEvent::Failed(m) => {
                        &&& r matches Download::Error(m2) && m2@ == m@
                        &&& f.stage == o.stage
                        &&& queues_same(o, f)
                    },
                    FetchEvent::Text(body) => {
                        if selector_parses(CARD_SELECTOR@) {
                            &&& r == Download::Progress(10u32)
                            &&& f.stage is SubPage
                            &&& f.pages.deep_view() == o.pages.deep_view().drop_last()
                            &&& f.sub_pages.deep_view().to_multiset() == doc_attr_seq(
                                body@,
                                CARD_SELECTOR@,
                                "href"@,
                            ).to_multiset()
                            &&& f.images.deep_view() == o.images.deep_view()
                        } else {
                            &&& r matches Download::Error(m) && m@ == parse_error_message(
                                ParseError::BadSelector,
                            )
                            &&& f.stage == o.stage
                            &&& f.pages.deep_view() == o.pages.deep_view().drop_last()
                            &&& f.sub_pages.deep_view() == o.sub_pages.deep_view()
                            &&& f.images.deep_view() == o.images.deep_view()
                        }
                    },
                    _ => false,
                }
            }
        },
        Stage::SubPage => {
            if o.images@.len() > 0 {
                &&& r == Download::Progress(20u32)
                &&& f.stage is Image
                &&& queues_same(o, f)
            } else if o.sub_pages@.len() == 0 {
                &&& r matches Download::Error(m) && m@ == "SubPages is empty!"@
                &&& f.stage == o.stage
                &&& queues_same(o, f)
            } else {
                match event {
                    FetchEvent::Failed(m) => {
                        &&& r matches Download::Error(m2) && m2@ == m@
                        &&& f.stage == o.stage
                        &&& queues_same(o, f)
                    },
                    FetchEvent::Text(body) => {
                        match sub_images_spec(body@) {
                            Ok(urls) => {
                                &&& r == Download::Progress(20u32)
                                &&& f.stage is Image
                                &&& f.pages.deep_view() == o.pages.deep_view()
                                &&& f.sub_pages.deep_view() == o.sub_pages.deep_view().drop_last()
                                &&& f.images.deep_view().to_multiset() == urls.to_multiset()
                            },
                            Err(e) => {
                                &&& r matches Download::Error(m) && m@ == parse_error_message(e)
                                &&& f.stage == o.stage
                                &&& f.pages.deep_view() == o.pages.deep_view()
                                &&& f.sub_pages.deep_view() == o.sub_pages.deep_view().drop_last()
                                &&& f.images.deep_view() == o.images.deep_view()
                            },
                        }
                    },
                    _ => false,
                }
            }
        },
        Stage::Image => {
            if o.images@.len() == 0 {
                &&& r matches Download::Error(m) && m@ == "Images is empty!"@
                &&& f.stage == o.stage
                &&& queues_same(o, f)
            } else {
                match event {
                    FetchEvent::Failed(m) => {
                        &&& r matches Download::Error(m2) && m2@ == m@
                        &&& f.stage == o.stage
                        &&& queues_same(o, f)
                    },
                    FetchEvent::Image(status, bytes) => {
                        if status == 200 {
                            &&& r matches Download::Done(b, u) && b@ == bytes@ && u@
                                == o.images.deep_view().last()
                            &&& f.stage is Idle
                            &&& f.pages.deep_view() == o.pages.deep_view()
                            &&& f.sub_pages.deep_view() == o.sub_pages.deep_view()
                            &&& f.images.deep_view() == o.images.deep_view().drop_last()
                        } else {
                            &&& r matches Download::Error(m) && m@ == http_error_message(
                                status,
                                o.images.deep_view().last(),
                            )
                            &&& f.stage == o.stage
                            &&& queues_same(o, f)
                        }
                    },
                    _ => false,
                }
            }
        },
    }
}

/// The three queues of `a` and `b` hold the same URLs in the same order.
pub open spec fn queues_same(a: Chiver, b: Chiver) -> bool {
    &&& a.pages.deep_view() == b.pages.deep_view()
    &&& a.sub_pages.deep_view() == b.sub_pages.deep_view()
    &&& a.images.deep_view() == b.images.deep_view()
}

impl Chiver {
    /// Advances the session by one paced step, consuming the fetch result
    /// the plan asked for, and returns the outcome of the step.
    ///
    /// The stage never skips the cyclic order: it moves to its successor on
    /// success and stays put on an error.  A queue is refilled only when
    /// empty; a non-empty queue either stays as it is or loses its top
    /// element.  A transport failure leaves all three queues exactly as they
    /// were.  A terminal outcome closes the pacing latch.
    pub fn step(&mut self, event: FetchEvent) -> (r: Download)
        requires
            old(self).is_running,
            old(self).event_ok(event),
        ensures
            step_spec(*old(self), *final(self), event, r),
            final(self).pending == old(self).pending,
            r matches Download::Error(_) ==> final(self).stage == old(self).stage,
            !(r matches Download::Error(_)) ==> final(self).stage == next_stage(old(self).stage),
            final(self).is_running <==> r is Progress,
            old(self).pages@.len() > 0 ==> final(self).pages.deep_view() == old(
                self,
            ).pages.deep_view() || final(self).pages.deep_view() == old(
                self,
            ).pages.deep_view().drop_last(),
            old(self).sub_pages@.len() > 0 ==> final(self).sub_pages.deep_view() == old(
                self,
            ).sub_pages.deep_view() || final(self).sub_pages.deep_view() == old(
                self,
            ).sub_pages.deep_view().drop_last(),
            old(self).images@.len() > 0 ==> final(self).images.deep_view() == old(
                self,
            ).images.deep_view() || final(self).images.deep_view() == old(
                self,
            ).images.deep_view().drop_last(),
            event matches FetchEvent::Failed(m) ==> (r matches Download::Error(m2) && m2@ == m@)
                && queues_same(*old(self), *final(self)),
            r matches Download::Done(b, u) ==> event matches FetchEvent::Image(st, b2) && st == 200
                && b2@ == b@,
    {
        match self.stage {
            Stage::Idle => {
                if self.pages.len() == 0 {
                    self.pages = init_chive_pages();
                }
                self.stage = Stage::Page;
                Download::Progress(1)
            },
            Stage::Page => {
                if self.sub_pages.len() > 0 {
                    self.stage = Stage::SubPage;
                    return Download::Progress(10);
                }
                if self.pages.len() == 0 {
                    self.is_running = false;
                    return Download::Error("Pages is empty!".to_owned());
                }
                match event {
                    FetchEvent::Failed(m) => {
                        self.is_running = false;
                        Download::Error(m)
                    },
                    FetchEvent::Text(body) => {
                        let ghost pages0 = self.pages.deep_view();
                        let _ = self.pages.pop();
                        proof {
                            assert(self.pages.deep_view() =~= pages0.drop_last());
                        }
                        match parse_chive_page(body.as_str()) {
                            Ok(subs) => {
                                self.sub_pages = subs;
                                self.stage = Stage::SubPage;
                                Download::Progress(10)
                            },
                            Err(e) => {
                                self.is_running = false;
                                Download::Error(e.message())
                            },
                        }
                    },
                    _ => {
                        proof {
                            assert(false);
                        }
                        Download::Error(String::new())
                    },
                }
            },
            Stage::SubPage => {
                if self.images.len() > 0 {
                    self.stage = Stage::Image;
                    return Download::Progress(20);
                }
                if self.sub_pages.len() == 0 {
                    self.is_running = false;
                    return Download::Error("SubPages is empty!".to_owned());
                }
                match event {
                    FetchEvent::Failed(m) => {
                        self.is_running = false;
                        Download::Error(m)
                    },
                    FetchEvent::Text(body) => {
                        let ghost subs0 = self.sub_pages.deep_view();
                        let _ = self.sub_pages.pop();
                        proof {
                            assert(self.sub_pages.deep_view() =~= subs0.drop_last());
                        }
                        match parse_chive_sub(body.as_str()) {
                            Ok(imgs) => {
                                self.images = imgs;
                                self.stage = Stage::Image;
                                Download::Progress(20)
                            },
                            Err(e) => {
                                self.is_running = false;
                                Download::Error(e.message())
                            },
                        }
                    },
                    _ => {
                        proof {
                            assert(false);
                        }
                        Download::Error(String::new())
                    },
                }
            },
            Stage::Image => {
                if self.images.len() == 0 {
                    self.is_running = false;
                    return Download::Error("Images is empty!".to_owned());
                }
                match event {
                    FetchEvent::Failed(m) => {
                        self.is_running = false;
                        Download::Error(m)
                    },
                    FetchEvent::Image(status, bytes) => {
                        if status != 200 {
                            let mut m = "Http status: ".to_owned();
                            let digits = u32_to_string(status as u32);
                            m.append(digits.as_str());
                            m.append(", ");
                            m.append(self.images[self.images.len() - 1].as_str());
                            self.is_running = false;
                            Download::Error(m)
                        } else {
                            let ghost imgs0 = self.images.deep_view();
                            let url = match self.images.pop() {
                                Some(u) => u,
                                None => {
                                    proof {
                                        assert(false);
                                    }
                                    String::new()
                                },
                            };
                            proof {
                                assert(self.images.deep_view() =~= imgs0.drop_last());
                            }
                            self.stage = Stage::Idle;
                            self.is_running = false;
                            Download::Done(bytes, url)
                        }
                    },
                    _ => {
                        proof {
                            assert(false);
                        }
                        Download::Error(String::new())
                    },
                }
            },
        }
    }
}

} // verus!
