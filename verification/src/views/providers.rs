//! The provider form's model list: fetching it, picking from it, and
//! stepping through the known models; the form's cursor and how it answers
//! keys; and the form's requests to the application.
//!
//! A fetch is numbered; an answer that carries another number than the
//! latest fetch is stale and dropped. A successful non-empty answer opens
//! the picker on its first model and joins the known models, which stay
//! sorted with each name once.
use vstd::prelude::*;

use crate::event::KeyCode;
use crate::strmap::{assoc_insert, assoc_keys, Assoc, StringMap};
use crate::num::{parse_u64, parse_u64_spec};
use crate::text::{chars_eq, push_str, str_chars, str_eq, trim, trim_str};

verus! {

/// What a key in the provider form asks of the application.
#[derive(Debug, Clone, PartialEq, Eq)]
pub enum FormAction {
    /// Nothing to do.
    Nothing,
    /// Close the form without saving.
    Cancel,
    /// Check the form and store the provider.
    Save,
    /// Fetch the provider's model list.
    Fetch,
    /// Show this message.
    Toast(String),
}

/// The state of the model list of a provider form.
#[derive(Debug)]
pub struct ModelFetch {
    /// A fetch is under way.
    pub fetching: bool,
    /// Number of the latest fetch.
    pub fetch_id: u64,
    pub fetch_error: Option<String>,
    /// The models of the last successful fetch.
    pub fetched_models: Vec<String>,
    pub picker_open: bool,
    /// Picker row under the cursor.
    pub picker_selected: usize,
    /// Models to step through with Left/Right (names; values unused).
    pub known_models: StringMap,
}

/// The names of a list of strings.
pub open spec fn names_of(v: Seq<String>) -> Seq<Seq<char>> {
    v.map_values(|s: String| s@)
}

/// `known` with the names `ms` entered one by one.
pub open spec fn with_models(known: Assoc, ms: Seq<Seq<char>>) -> Assoc
    decreases ms.len(),
{
    if ms.len() == 0 {
        known
    } else {
        assoc_insert(with_models(known, ms.drop_last()), ms.last(), Seq::empty())
    }
}

/// What a key does to the open picker.
pub enum PickerOutcome {
    /// Keep going.
    Stay,
    /// The model under the cursor was chosen; the picker closed.
    Chosen(String),
}

impl ModelFetch {
    /// The picker cursor is on a model and the known models are sorted.
    pub open spec fn wf(&self) -> bool {
        &&& self.known_models.wf()
        &&& (self.picker_open ==> self.picker_selected < self.fetched_models@.len())
    }

    /// Nothing fetched yet; `known` are the models the provider has.
    pub fn new(known: StringMap) -> (f: ModelFetch)
        requires
            known.wf(),
        ensures
            f.wf(),
            !f.fetching,
            f.fetch_id == 0,
            f.fetch_error is None,
            f.fetched_models@.len() == 0,
            !f.picker_open,
            f.picker_selected == 0,
            f.known_models@ == known@,
    {
        ModelFetch {
            fetching: false,
            fetch_id: 0,
            fetch_error: None,
            fetched_models: Vec::new(),
            picker_open: false,
            picker_selected: 0,
            known_models: known,
        }
    }

    /// Starts a fetch: a new number (wrapping), fetching, no error, no
    /// models, picker closed. Returns the number the answer must carry.
    pub fn start_fetch(&mut self) -> (id: u64)
        requires
            old(self).wf(),
        ensures
            final(self).wf(),
            id == final(self).fetch_id,
            id == (if old(self).fetch_id == u64::MAX {
                0
            } else {
                (old(self).fetch_id + 1) as u64
            }),
            final(self).fetching,
            final(self).fetch_error is None,
            final(self).fetched_models@.len() == 0,
            !final(self).picker_open,
            final(self).picker_selected == old(self).picker_selected,
            final(self).known_models@ == old(self).known_models@,
    {
        self.fetch_id = if self.fetch_id == u64::MAX {
            0
        } else {
            self.fetch_id + 1
        };
        self.fetching = true;
        self.fetch_error = None;
        self.fetched_models = Vec::new();
        self.picker_open = false;
        self.fetch_id
    }

    /// Takes the answer of fetch `fetch_id`. A stale answer changes
    /// nothing. Otherwise fetching ends: an error is kept, an empty list is
    /// an error too, and a list opens the picker on its first model and
    /// joins the known models.
    pub fn deliver_fetch(&mut self, fetch_id: u64, result: Result<Vec<String>, String>)
        requires
            old(self).wf(),
        ensures
            final(self).wf(),
            fetch_id != old(self).fetch_id ==> *final(self) == *old(self),
            fetch_id == old(self).fetch_id ==> {
                &&& !final(self).fetching
                &&& final(self).fetch_id == old(self).fetch_id
                &&& match result {
                    Err(e) => {
                        &&& final(self).fetch_error == Some(e)
                        &&& final(self).fetched_models == old(self).fetched_models
                        &&& final(self).picker_open == old(self).picker_open
                        &&& final(self).picker_selected == old(self).picker_selected
                        &&& final(self).known_models@ == old(self).known_models@
                    },
                    Ok(ms) => if ms@.len() == 0 {
                        &&& final(self).fetch_error matches Some(e) && e@ == "未返回任何模型"@
                        &&& final(self).fetched_models == old(self).fetched_models
                        &&& final(self).picker_open == old(self).picker_open
                        &&& final(self).picker_selected == old(self).picker_selected
                        &&& final(self).known_models@ == old(self).known_models@
                    } else {
                        &&& final(self).fetch_error == old(self).fetch_error
                        &&& names_of(final(self).fetched_models@) == names_of(ms@)
                        &&& final(self).picker_open
                        &&& final(self).picker_selected == 0
                        &&& final(self).known_models@ == with_models(old(self).known_models@, names_of(ms@))
                    },
                }
            },
    {
        if fetch_id != self.fetch_id {
            return;
        }
        self.fetching = false;
        match result {
            Ok(models) => {
                if models.len() == 0 {
                    self.fetch_error = Some("未返回任何模型".to_owned());
                } else {
                    let ghost ns = names_of(models@);
                    let mut known = StringMap::new();
                    core::mem::swap(&mut known, &mut self.known_models);
                    let ghost k0 = known@;
                    let mut i: usize = 0;
                    assert(ns.take(0) =~= Seq::<Seq<char>>::empty());
                    while i < models.len()
                        invariant
                            i <= models@.len(),
                            ns == names_of(models@),
                            known.wf(),
                            known@ == with_models(k0, ns.take(i as int)),
                        decreases models@.len() - i,
                    {
                        known.insert(models[i].clone(), String::new());
                        assert(ns.take(i + 1).drop_last() =~= ns.take(i as int));
                        i = i + 1;
                    }
                    assert(ns.take(models@.len() as int) =~= ns);
                    self.known_models = known;
                    self.fetched_models = models;
                    self.picker_selected = 0;
                    self.picker_open = true;
                }
            },
            Err(e) => {
                self.fetch_error = Some(e);
            },
        }
    }

    /// Takes a model name typed into the form: trims it and, when something
    /// is left, adds it to the known models. Returns the trimmed name.
    pub fn commit_typed(&mut self, typed: &str) -> (name: String)
        requires
            old(self).wf(),
        ensures
            final(self).wf(),
            name@ == trim(typed@),
            final(self).known_models@ == (if trim(typed@).len() > 0 {
                assoc_insert(old(self).known_models@, trim(typed@), Seq::empty())
            } else {
                old(self).known_models@
            }),
            final(self).fetching == old(self).fetching,
            final(self).fetch_id == old(self).fetch_id,
            final(self).fetch_error == old(self).fetch_error,
            final(self).fetched_models == old(self).fetched_models,
            final(self).picker_open == old(self).picker_open,
            final(self).picker_selected == old(self).picker_selected,
    {
        let name = trim_str(typed);
        if !name.as_str().is_empty() {
            self.known_models.insert(trim_str(typed), String::new());
        }
        name
    }

    /// A key while the picker is open: Up and Down move round the list,
    /// Enter chooses the model under the cursor, Esc closes; with no models
    /// any key closes the picker.
    pub fn picker_key(&mut self, code: KeyCode) -> (r: PickerOutcome)
        requires
            old(self).wf(),
            old(self).picker_open,
        ensures
            final(self).wf(),
            final(self).fetched_models == old(self).fetched_models,
            final(self).known_models == old(self).known_models,
            final(self).fetching == old(self).fetching,
            final(self).fetch_id == old(self).fetch_id,
            ({
                let n = old(self).fetched_models@.len();
                let sel = old(self).picker_selected;
                if n == 0 {
                    !final(self).picker_open && r is Stay && final(self).picker_selected == sel
                } else {
                    match code {
                        KeyCode::Up => r is Stay && final(self).picker_open && final(self).picker_selected == (
                        if sel == 0 {
                            n - 1
                        } else {
                            sel - 1
                        }),
                        KeyCode::Down => r is Stay && final(self).picker_open && final(self).picker_selected == (
                        if sel + 1 == n {
                            0
                        } else {
                            sel + 1
                        }),
                        KeyCode::Enter => !final(self).picker_open && (r matches PickerOutcome::Chosen(m)
                            && m@ == old(self).fetched_models@[sel as int]@),
                        KeyCode::Esc => r is Stay && !final(self).picker_open,
                        _ => r is Stay && final(self).picker_open && final(self).picker_selected == sel,
                    }
                }
            }),
    {
        let n = self.fetched_models.len();
        if n == 0 {
            self.picker_open = false;
            return PickerOutcome::Stay;
        }
        match code {
            KeyCode::Up => {
                self.picker_selected = if self.picker_selected == 0 {
                    n - 1
                } else {
                    self.picker_selected - 1
                };
                PickerOutcome::Stay
            },
            KeyCode::Down => {
                self.picker_selected = if self.picker_selected + 1 == n {
                    0
                } else {
                    self.picker_selected + 1
                };
                PickerOutcome::Stay
            },
            KeyCode::Enter => {
                let m = self.fetched_models[self.picker_selected].clone();
                self.picker_open = false;
                PickerOutcome::Chosen(m)
            },
            KeyCode::Esc => {
                self.picker_open = false;
                PickerOutcome::Stay
            },
            _ => PickerOutcome::Stay,
        }
    }
}

/// The model Left (`forward` false) or Right steps to from `current`
/// among `known`: the next or previous one round the list, the first one
/// when `current` is not listed, none with fewer than two models.
pub open spec fn neighbour(known: Seq<Seq<char>>, current: Seq<char>, forward: bool) -> Option<Seq<char>> {
    let n = known.len() as int;
    if n <= 1 {
        None
    } else if known.contains(current) {
        let p = known.index_of(current);
        Some(
            if forward {
                known[(p + 1) % n]
            } else {
                known[(p + n - 1) % n]
            },
        )
    } else {
        Some(known[0])
    }
}

/// The model Left or Right steps to (see `neighbour`).
pub fn neighbour_model(known: &StringMap, current: &str, forward: bool) -> (r: Option<String>)
    requires
        known.wf(),
    ensures
        match r {
            Some(m) => neighbour(assoc_keys(known@), current@, forward) == Some(m@),
            None => neighbour(assoc_keys(known@), current@, forward) is None,
        },
{
    let n = known.len();
    if n <= 1 {
        return None;
    }
    let ghost ks = assoc_keys(known@);
    let cv = str_chars(current);
    let mut i: usize = 0;
    while i < n
        invariant
            known.wf(),
            n == known@.len(),
            n > 1,
            ks == assoc_keys(known@),
            i <= n,
            cv@ == current@,
            forall|j: int| 0 <= j < i ==> ks[j] != current@,
        decreases n - i,
    {
        let (k, _) = known.entry(i);
        if chars_eq(&str_chars(k.as_str()), &cv) {
            proof {
                assert(ks[i as int] == current@);
                assert(ks.contains(current@));
                let p = ks.index_of(current@);
                assert forall|j: int| 0 <= j < ks.len() && ks[j] == current@ implies j == i by {
                    known.lemma_wf_sorted();
                    if j < i {
                    } else if j > i {
                        crate::order::lemma_lex_irreflexive(current@);
                        assert(crate::order::lex_lt(known@[i as int].0, known@[j].0));
                    }
                }
                assert(p == i);
                let ni = n as int;
                let ii = i as int;
                if ii == 0 {
                    assert((ii + ni - 1) % ni == ni - 1) by (nonlinear_arith)
                        requires
                            ii == 0,
                            ni > 1,
                    ;
                } else {
                    assert((ii + ni - 1) % ni == ii - 1) by (nonlinear_arith)
                        requires
                            0 < ii < ni,
                    ;
                }
            }
            let p = if forward {
                (i + 1) % n
            } else if i == 0 {
                n - 1
            } else {
                i - 1
            };
            let (m, _) = known.entry(p);
            return Some(m.clone());
        }
        i = i + 1;
    }
    assert(!ks.contains(current@));
    let (m, _) = known.entry(0);
    Some(m.clone())
}

/// Number of focusable fields of the provider form.
pub const FORM_FIELD_COUNT: usize = 19;
/// Focus index of the provider kind (cycled with Left/Right).
pub const IDX_KIND: usize = 1;
/// Focus index of the model (Left/Right steps through the known models).
pub const IDX_MODEL: usize = 4;
/// Focus index of the price currency (cycled with Left/Right).
pub const IDX_CURRENCY: usize = 12;
/// Focus index of the fetch-models button.
pub const IDX_FETCH: usize = 16;
/// Focus index of the Save button.
pub const IDX_SAVE: usize = 17;
/// Focus index of the Cancel button.
pub const IDX_CANCEL: usize = 18;
/// Number of price currencies.
pub const CURRENCY_COUNT: usize = 2;

/// Whether field `idx` of the provider form is edited as text (all but the
/// kind, the currency and the buttons).
pub open spec fn form_text_field(idx: int) -> bool {
    idx == 0 || (2 <= idx <= 11) || (13 <= idx <= 15)
}

/// The cursor of the provider form: the focused field, whether its text is
/// being edited, and the chosen kind and currency.
#[derive(Debug, Clone, Copy, PartialEq, Eq, Structural)]
pub struct FormCursor {
    pub focused: usize,
    pub editing: bool,
    pub kind_idx: usize,
    pub currency_idx: usize,
}

/// What a key in the provider form leaves to the application, besides the
/// cursor's own move.
#[derive(Debug, Clone, Copy, PartialEq, Eq, Structural)]
pub enum FormStep {
    Nothing,
    Cancel,
    Save,
    Fetch,
    /// Load the text of this field into the text box.
    StartEditing(usize),
    /// Step to the next (`true`) or previous known model.
    SwitchModel(bool),
    /// Store the text box's text in this field.
    Commit(usize),
    /// The edit was dropped.
    DropEdit,
    /// The key belongs to the text box.
    TextInput,
}

/// `i` one step forward or back in a cycle of `n`.
pub open spec fn cycle(i: int, n: int, forward: bool) -> int {
    if forward {
        (i + 1) % n
    } else {
        (i + n - 1) % n
    }
}

/// How the cursor `c` answers a key `code` with `kinds` provider kinds while
/// `fetching` says whether a fetch is under way: the new cursor and the
/// step left to the application.
///
/// While editing, Enter commits the text and Esc drops it; other keys go to
/// the text box. Otherwise Up and Down move the focus around the fields,
/// Left and Right cycle the kind or the currency or step the model, Enter
/// presses a button (fetch only when none is under way) or starts editing a
/// text field, and Esc cancels the form.
pub open spec fn form_key(c: FormCursor, code: KeyCode, kinds: int, fetching: bool) -> (FormCursor, FormStep) {
    if c.editing {
        match code {
            KeyCode::Enter => (FormCursor { editing: false, ..c }, FormStep::Commit(c.focused)),
            KeyCode::Esc => (FormCursor { editing: false, ..c }, FormStep::DropEdit),
            _ => (c, FormStep::TextInput),
        }
    } else {
        match code {
            KeyCode::Up => (FormCursor { focused: cycle(c.focused as int, 19, false) as usize, ..c }, FormStep::Nothing),
            KeyCode::Down => (FormCursor { focused: cycle(c.focused as int, 19, true) as usize, ..c }, FormStep::Nothing),
            KeyCode::Left | KeyCode::Right => {
                let forward = code == KeyCode::Right;
                if c.focused == IDX_KIND {
                    (FormCursor { kind_idx: cycle(c.kind_idx as int, kinds, forward) as usize, ..c }, FormStep::Nothing)
                } else if c.focused == IDX_MODEL {
                    (c, FormStep::SwitchModel(forward))
                } else if c.focused == IDX_CURRENCY {
                    (FormCursor { currency_idx: cycle(c.currency_idx as int, 2, forward) as usize, ..c }, FormStep::Nothing)
                } else {
                    (c, FormStep::Nothing)
                }
            },
            KeyCode::Enter => if c.focused == IDX_FETCH {
                (c, if fetching { FormStep::Nothing } else { FormStep::Fetch })
            } else if c.focused == IDX_SAVE {
                (c, FormStep::Save)
            } else if c.focused == IDX_CANCEL {
                (c, FormStep::Cancel)
            } else if form_text_field(c.focused as int) {
                (FormCursor { editing: true, ..c }, FormStep::StartEditing(c.focused))
            } else {
                (c, FormStep::Nothing)
            },
            KeyCode::Esc => (c, FormStep::Cancel),
            _ => (c, FormStep::Nothing),
        }
    }
}

impl FormCursor {
    /// The cursor of a fresh form: focus on the first field, kind and
    /// currency `kind_idx` and `currency_idx`.
    pub fn new(focused: usize, kind_idx: usize, currency_idx: usize) -> (c: FormCursor)
        ensures
            c == (FormCursor { focused, editing: false, kind_idx, currency_idx }),
    {
        FormCursor { focused, editing: false, kind_idx, currency_idx }
    }

    /// The indices name a field, a kind and a currency.
    pub open spec fn wf(&self, kinds: int) -> bool {
        &&& self.focused < FORM_FIELD_COUNT
        &&& 0 <= self.kind_idx < kinds
        &&& self.currency_idx < CURRENCY_COUNT
    }

    /// Whether field `idx` is edited as text (see `form_text_field`).
    pub fn is_text_field(idx: usize) -> (b: bool)
        ensures
            b == form_text_field(idx as int),
    {
        idx == 0 || (2 <= idx && idx <= 11) || (13 <= idx && idx <= 15)
    }

    /// Answers a key (see `form_key`).
    pub fn key(&mut self, code: KeyCode, kinds: usize, fetching: bool) -> (step: FormStep)
        requires
            old(self).wf(kinds as int),
        ensures
            (*final(self), step) == form_key(*old(self), code, kinds as int, fetching),
            final(self).wf(kinds as int),
    {
        if self.editing {
            return match code {
                KeyCode::Enter => {
                    self.editing = false;
                    FormStep::Commit(self.focused)
                },
                KeyCode::Esc => {
                    self.editing = false;
                    FormStep::DropEdit
                },
                _ => FormStep::TextInput,
            };
        }
        match code {
            KeyCode::Up => {
                self.focused = (self.focused + FORM_FIELD_COUNT - 1) % FORM_FIELD_COUNT;
                FormStep::Nothing
            },
            KeyCode::Down => {
                self.focused = (self.focused + 1) % FORM_FIELD_COUNT;
                FormStep::Nothing
            },
            KeyCode::Left | KeyCode::Right => {
                let forward = code == KeyCode::Right;
                if self.focused == IDX_KIND {
                    let k = self.kind_idx;
                    self.kind_idx = if forward {
                        if k + 1 == kinds {
                            0
                        } else {
                            k + 1
                        }
                    } else if k == 0 {
                        kinds - 1
                    } else {
                        k - 1
                    };
                    proof {
                        let n = kinds as int;
                        let ki = k as int;
                        assert(cycle(ki, n, forward) == self.kind_idx as int) by (nonlinear_arith)
                            requires
                                0 <= ki < n,
                                self.kind_idx as int == (if forward {
                                    if ki + 1 == n {
                                        0
                                    } else {
                                        ki + 1
                                    }
                                } else if ki == 0 {
                                    n - 1
                                } else {
                                    ki - 1
                                }),
                        ;
                    }
                    FormStep::Nothing
                } else if self.focused == IDX_MODEL {
                    FormStep::SwitchModel(forward)
                } else if self.focused == IDX_CURRENCY {
                    self.currency_idx = if forward {
                        (self.currency_idx + 1) % CURRENCY_COUNT
                    } else {
                        (self.currency_idx + CURRENCY_COUNT - 1) % CURRENCY_COUNT
                    };
                    FormStep::Nothing
                } else {
                    FormStep::Nothing
                }
            },
            KeyCode::Enter => {
                if self.focused == IDX_FETCH {
                    if fetching {
                        FormStep::Nothing
                    } else {
                        FormStep::Fetch
                    }
                } else if self.focused == IDX_SAVE {
                    FormStep::Save
                } else if self.focused == IDX_CANCEL {
                    FormStep::Cancel
                } else if Self::is_text_field(self.focused) {
                    self.editing = true;
                    FormStep::StartEditing(self.focused)
                } else {
                    FormStep::Nothing
                }
            },
            KeyCode::Esc => FormStep::Cancel,
            _ => FormStep::Nothing,
        }
    }
}

/// One step of a cycle of `n` undone by a step the other way.
proof fn lemma_cycle_back(i: int, n: int, forward: bool)
    requires
        0 <= i < n,
    ensures
        0 <= cycle(i, n, forward) < n,
        cycle(cycle(i, n, forward), n, !forward) == i,
{
    if forward {
        if i + 1 < n {
            assert((i + 1) % n == i + 1) by (nonlinear_arith)
                requires
                    0 <= i + 1 < n,
            ;
            assert((i + 1 + n - 1) % n == i) by (nonlinear_arith)
                requires
                    0 <= i < n,
            ;
        } else {
            assert((i + 1) % n == 0) by (nonlinear_arith)
                requires
                    i + 1 == n,
                    0 <= i,
            ;
            assert((0 + n - 1) % n == n - 1) by (nonlinear_arith)
                requires
                    n >= 1,
            ;
        }
    } else {
        if i > 0 {
            assert((i + n - 1) % n == i - 1) by (nonlinear_arith)
                requires
                    0 < i < n,
            ;
            assert((i - 1 + 1) % n == i) by (nonlinear_arith)
                requires
                    0 <= i < n,
            ;
        } else {
            assert((0 + n - 1) % n == n - 1) by (nonlinear_arith)
                requires
                    n >= 1,
            ;
            assert((n - 1 + 1) % n == 0) by (nonlinear_arith)
                requires
                    n >= 1,
            ;
        }
    }
}

/// Outside editing, moving the focus down and then up, or the other way,
/// leaves the form's cursor as it was.
pub proof fn lemma_form_focus_round_trip(c: FormCursor, kinds: int, fetching: bool, down_first: bool)
    requires
        c.wf(kinds),
        !c.editing,
    ensures
        ({
            let (first, second) = if down_first {
                (KeyCode::Down, KeyCode::Up)
            } else {
                (KeyCode::Up, KeyCode::Down)
            };
            form_key(form_key(c, first, kinds, fetching).0, second, kinds, fetching).0 == c
        }),
{
    lemma_cycle_back(c.focused as int, 19, down_first);
}

/// On the kind or the currency, Left then Right (or Right then Left)
/// leaves the choice, and the whole cursor, as it was.
pub proof fn lemma_form_choice_round_trip(c: FormCursor, kinds: int, fetching: bool, right_first: bool)
    requires
        c.wf(kinds),
        kinds <= usize::MAX,
        !c.editing,
        c.focused == IDX_KIND || c.focused == IDX_CURRENCY,
    ensures
        ({
            let (first, second) = if right_first {
                (KeyCode::Right, KeyCode::Left)
            } else {
                (KeyCode::Left, KeyCode::Right)
            };
            form_key(form_key(c, first, kinds, fetching).0, second, kinds, fetching).0 == c
        }),
{
    lemma_cycle_back(c.kind_idx as int, kinds, right_first);
    lemma_cycle_back(c.currency_idx as int, 2, right_first);
}

/// What `u32::from_str` gives for `s`: `None` for an error.
pub open spec fn parse_u32_spec(s: Seq<char>) -> Option<u32> {
    match parse_u64_spec(s) {
        Some(v) => if v <= u32::MAX {
            Some(v as u32)
        } else {
            None
        },
        None => None,
    }
}

/// The checks of the provider form that involve no price or temperature:
/// the trimmed name must be given and must not name another provider than
/// the one edited (`original`, empty when adding), the trimmed base URL must
/// be given, and the trimmed `max_tokens` must read as a `u32`. On success,
/// the trimmed name, the trimmed base URL and the token limit.
pub open spec fn spec_check_head(
    name: Seq<char>,
    original: Seq<char>,
    names: Seq<Seq<char>>,
    base_url: Seq<char>,
    max_tokens: Seq<char>,
) -> Result<(Seq<char>, Seq<char>, u32), Seq<char>> {
    let n = trim(name);
    let b = trim(base_url);
    if n.len() == 0 {
        Err("名称不能为空"@)
    } else if n != original && names.contains(n) {
        Err("名称 '"@ + n + "' 已存在"@)
    } else if b.len() == 0 {
        Err("base_url 不能为空"@)
    } else {
        match parse_u32_spec(trim(max_tokens)) {
            Some(m) => Ok((n, b, m)),
            None => Err("max_tokens 必须是数字"@),
        }
    }
}

/// The provider form's checks that involve no float (see
/// `spec_check_head`); `existing` holds the configured providers by name.
pub fn check_head(
    name: &str,
    original: &Option<String>,
    existing: &StringMap,
    base_url: &str,
    max_tokens: &str,
) -> (r: Result<(String, String, u32), String>)
    requires
        existing.wf(),
    ensures
        match (r, spec_check_head(
            name@,
            match original { Some(o) => o@, None => Seq::empty() },
            assoc_keys(existing@),
            base_url@,
            max_tokens@,
        )) {
            (Ok((a, b, m)), Ok((sa, sb, sm))) => a@ == sa && b@ == sb && m == sm,
            (Err(e), Err(se)) => e@ == se,
            _ => false,
        },
{
    let n = trim_str(name);
    if n.as_str().is_empty() {
        return Err("名称不能为空".to_owned());
    }
    let same = match original {
        Some(o) => str_eq(n.as_str(), o.as_str()),
        None => false,
    };
    if !same && existing.contains_key(n.as_str()) {
        let mut e = String::new();
        push_str(&mut e, "名称 '");
        push_str(&mut e, n.as_str());
        push_str(&mut e, "' 已存在");
        return Err(e);
    }
    let b = trim_str(base_url);
    if b.as_str().is_empty() {
        return Err("base_url 不能为空".to_owned());
    }
    let t = trim_str(max_tokens);
    match parse_u64(t.as_str()) {
        Some(v) => if v <= 0xffff_ffff {
            Ok((n, b, v as u32))
        } else {
            Err("max_tokens 必须是数字".to_owned())
        },
        None => Err("max_tokens 必须是数字".to_owned()),
    }
}

} // verus!
