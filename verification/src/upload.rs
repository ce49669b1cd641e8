//! Rules of the HTTP front end: how upload forms are read, how the kind of
//! an uploaded file is recognised, and how requests become quote inputs.
use vstd::prelude::*;

use crate::error::EngineError;
use crate::model::ModelKind;
use crate::quote::{input_numbers_valid, QuoteInput, Turnaround};
use crate::float_text::{is_float_literal, is_float_literal_chars};
use crate::text::{
    all_digits, ascii_lower, chars_of, decimal_string, decimal_text, decimal_value, eq_ignore_case,
    eq_ignore_case_in, is_digit, lower_char, opt_view, parse_decimal, parse_decimal_in,
    plus_stripped, string_of, trim, trim_range,
};

verus! {

/// Why an upload request is refused.
#[derive(Debug)]
pub enum RequestError {
    /// A multipart field without a name.
    MissingFieldName,
    /// More than one `file` field.
    MultipleFiles,
    /// No `file` field.
    MissingFile,
    /// A form field the upload form does not have, with its name.
    UnknownField(String),
    /// A form field whose value cannot be read, with its name and the
    /// trimmed value.
    InvalidValue { field: String, value: String },
    /// The file name's extension (lower-cased) names no supported format.
    UnsupportedExtension(String),
    /// Neither the file name nor the content tells the kind of file.
    UnknownFileType,
    /// The file exceeds the upload limit, in bytes.
    FileTooLarge(usize),
}

/// The text a refused request is answered with.
pub open spec fn request_error_text(e: RequestError) -> Seq<char> {
    match e {
        RequestError::MissingFieldName => "multipart field missing name"@,
        RequestError::MultipleFiles => "multiple file fields provided"@,
        RequestError::MissingFile => "missing file field"@,
        RequestError::UnknownField(f) => "unknown form field: "@ + f@,
        RequestError::InvalidValue { field, value } => "invalid value for form field "@ + field@
            + ": "@ + value@,
        RequestError::UnsupportedExtension(e) => "unsupported file extension: ."@ + e@,
        RequestError::UnknownFileType => "unable to detect file type"@,
        RequestError::FileTooLarge(max) => "file exceeds "@ + decimal_text(max as nat)
            + " bytes limit"@,
    }
}

impl RequestError {
    /// The text the refusal is answered with.
    pub fn message(&self) -> (s: String)
        ensures
            s@ == request_error_text(*self),
    {
        match self {
            RequestError::MissingFieldName => String::from_str("multipart field missing name"),
            RequestError::MultipleFiles => String::from_str("multiple file fields provided"),
            RequestError::MissingFile => String::from_str("missing file field"),
            RequestError::UnknownField(f) => {
                let mut s = String::from_str("unknown form field: ");
                s.append(f.as_str());
                s
            },
            RequestError::InvalidValue { field, value } => {
                let mut s = String::from_str("invalid value for form field ");
                s.append(field.as_str());
                s.append(": ");
                s.append(value.as_str());
                s
            },
            RequestError::UnsupportedExtension(e) => {
                let mut s = String::from_str("unsupported file extension: .");
                s.append(e.as_str());
                s
            },
            RequestError::UnknownFileType => String::from_str("unable to detect file type"),
            RequestError::FileTooLarge(max) => {
                let mut s = String::from_str("file exceeds ");
                let n = decimal_string(*max);
                s.append(n.as_str());
                s.append(" bytes limit");
                s
            },
        }
    }
}

/// Material used when a request names none.
pub open spec fn default_material_id() -> Seq<char> {
    seq!['p', 'l', 'a']
}

/// Infill percentage the front end asks for.
pub const REQUEST_INFILL_PERCENT: u8 = 25;

/// Upload limit, in MiB, when none is configured.
pub const DEFAULT_MAX_UPLOAD_MB: usize = 50;

// ---------------------------------------------------------------------------
// Form fields
/// The options an upload form sets besides the file. The price overrides
/// are decimal text accepted by `f64::from_str`.
#[derive(Debug)]
pub struct FormOptions {
    pub filename: Option<String>,
    pub material_id: Option<String>,
    pub infill_percent: Option<u8>,
    pub supports: Option<bool>,
    pub cost_per_kg_override: Option<String>,
    pub base_fee_override: Option<String>,
}

pub struct FormView {
    pub filename: Option<Seq<char>>,
    pub material_id: Option<Seq<char>>,
    pub infill_percent: Option<u8>,
    pub supports: Option<bool>,
    pub cost_per_kg_override: Option<Seq<char>>,
    pub base_fee_override: Option<Seq<char>>,
}

impl View for FormOptions {
    type V = FormView;

    open spec fn view(&self) -> FormView {
        FormView {
            filename: opt_view(self.filename),
            material_id: opt_view(self.material_id),
            infill_percent: self.infill_percent,
            supports: self.supports,
            cost_per_kg_override: opt_view(self.cost_per_kg_override),
            base_fee_override: opt_view(self.base_fee_override),
        }
    }
}

pub open spec fn key_material_id() -> Seq<char> {
    seq!['m', 'a', 't', 'e', 'r', 'i', 'a', 'l', '_', 'i', 'd']
}

pub open spec fn key_infill_percent() -> Seq<char> {
    seq!['i', 'n', 'f', 'i', 'l', 'l', '_', 'p', 'e', 'r', 'c', 'e', 'n', 't']
}

pub open spec fn key_supports() -> Seq<char> {
    seq!['s', 'u', 'p', 'p', 'o', 'r', 't', 's']
}

pub open spec fn key_cost() -> Seq<char> {
    seq!['c', 'o', 's', 't']
}

pub open spec fn key_base_fee() -> Seq<char> {
    seq!['b', 'a', 's', 'e', '_', 'f', 'e', 'e']
}

pub open spec fn key_file() -> Seq<char> {
    seq!['f', 'i', 'l', 'e']
}

/// Largest infill percentage.
pub const MAX_INFILL_PERCENT: usize = 100;

/// A yes/no form value, ASCII case-insensitive: `true`, `1`, `on`, `yes`
/// or `false`, `0`, `off`, `no`.
pub open spec fn parse_flag(v: Seq<char>) -> Option<bool> {
    if eq_ignore_case(v, seq!['t', 'r', 'u', 'e']) || v == seq!['1'] || eq_ignore_case(
        v,
        seq!['o', 'n'],
    ) || eq_ignore_case(v, seq!['y', 'e', 's']) {
        Some(true)
    } else if eq_ignore_case(v, seq!['f', 'a', 'l', 's', 'e']) || v == seq!['0'] || eq_ignore_case(
        v,
        seq!['o', 'f', 'f'],
    ) || eq_ignore_case(v, seq!['n', 'o']) {
        Some(false)
    } else {
        None
    }
}

/// What a form field does to the options.
pub enum FieldEffect {
    /// A blank value: nothing changes.
    Ignore,
    /// The options become these.
    Update(FormView),
    /// A field the form does not have.
    Unknown,
    /// A known field whose value cannot be read.
    Invalid,
}

/// The effect of the text field `field` with value `raw` on the options `f`:
/// blank values are ignored; `material_id` takes the trimmed value;
/// `infill_percent` a whole number from 0 to 100; `supports` a yes/no value;
/// `cost` and `base_fee` a number, as price overrides.
pub open spec fn field_effect(f: FormView, field: Seq<char>, raw: Seq<char>) -> FieldEffect {
    let v = trim(raw);
    if v.len() == 0 {
        FieldEffect::Ignore
    } else if field == key_material_id() {
        FieldEffect::Update(FormView { material_id: Some(v), ..f })
    } else if field == key_infill_percent() {
        match parse_decimal(v, MAX_INFILL_PERCENT as int) {
            Some(n) => FieldEffect::Update(FormView { infill_percent: Some(n as u8), ..f }),
            None => FieldEffect::Invalid,
        }
    } else if field == key_supports() {
        match parse_flag(v) {
            Some(b) => FieldEffect::Update(FormView { supports: Some(b), ..f }),
            None => FieldEffect::Invalid,
        }
    } else if field == key_cost() {
        if is_float_literal(v) {
            FieldEffect::Update(FormView { cost_per_kg_override: Some(v), ..f })
        } else {
            FieldEffect::Invalid
        }
    } else if field == key_base_fee() {
        if is_float_literal(v) {
            FieldEffect::Update(FormView { base_fee_override: Some(v), ..f })
        } else {
            FieldEffect::Invalid
        }
    } else {
        FieldEffect::Unknown
    }
}

/// The price overrides of a form are decimal text accepted by `f64::from_str`.
pub open spec fn form_numbers_valid(f: FormView) -> bool {
    &&& (f.cost_per_kg_override matches Some(t) ==> is_float_literal(t))
    &&& (f.base_fee_override matches Some(t) ==> is_float_literal(t))
}

fn same_text(a: &str, b: &str) -> (r: bool)
    ensures
        r == (a@ == b@),
{
    String::from_str(a) == String::from_str(b)
}

fn copy_range(v: &Vec<char>, lo: usize, hi: usize) -> (r: Vec<char>)
    requires
        lo <= hi <= v.len(),
    ensures
        r@ == v@.subrange(lo as int, hi as int),
{
    let mut r: Vec<char> = Vec::new();
    let mut k = lo;
    while k < hi
        invariant
            lo <= k <= hi <= v.len(),
            r@ == v@.subrange(lo as int, k as int),
        decreases hi - k,
    {
        r.push(v[k]);
        assert(r@ =~= v@.subrange(lo as int, k + 1));
        k = k + 1;
    }
    r
}

/// Reads a yes/no value from `v[lo..hi]`.
fn flag_in(v: &Vec<char>, lo: usize, hi: usize) -> (r: Option<bool>)
    requires
        lo <= hi <= v.len(),
    ensures
        r == parse_flag(v@.subrange(lo as int, hi as int)),
{
    let ghost t = v@.subrange(lo as int, hi as int);
    if eq_ignore_case_in(v, lo, hi, &vec!['t', 'r', 'u', 'e']) || eq_ignore_case_in(
        v,
        lo,
        hi,
        &vec!['o', 'n'],
    ) || eq_ignore_case_in(v, lo, hi, &vec!['y', 'e', 's']) {
        return Some(true);
    }
    if hi - lo == 1 && v[lo] == '1' {
        assert(t =~= seq!['1']);
        return Some(true);
    }
    assert(t != seq!['1']) by {
        if t == seq!['1'] {
            assert(t[0] == v@[lo as int]);
        }
    }
    if eq_ignore_case_in(v, lo, hi, &vec!['f', 'a', 'l', 's', 'e']) || eq_ignore_case_in(
        v,
        lo,
        hi,
        &vec!['o', 'f', 'f'],
    ) || eq_ignore_case_in(v, lo, hi, &vec!['n', 'o']) {
        return Some(false);
    }
    if hi - lo == 1 && v[lo] == '0' {
        assert(t =~= seq!['0']);
        return Some(false);
    }
    assert(t != seq!['0']) by {
        if t == seq!['0'] {
            assert(t[0] == v@[lo as int]);
        }
    }
    None
}

impl Default for FormOptions {
    /// No option set.
    fn default() -> (f: FormOptions)
        ensures
            f.filename is None,
            f.material_id is None,
            f.infill_percent is None,
            f.supports is None,
            f.cost_per_kg_override is None,
            f.base_fee_override is None,
    {
        FormOptions {
            filename: None,
            material_id: None,
            infill_percent: None,
            supports: None,
            cost_per_kg_override: None,
            base_fee_override: None,
        }
    }
}

impl FormOptions {
    /// Applies the text field `field` with value `raw` (see `field_effect`):
    /// unknown fields and unreadable values are refused, naming the field
    /// and the trimmed value, and leave the options unchanged.
    pub fn apply(&mut self, field: &str, raw: &str) -> (r: Result<(), RequestError>)
        ensures
            match field_effect(old(self)@, field@, raw@) {
                FieldEffect::Ignore => r is Ok && final(self)@ == old(self)@,
                FieldEffect::Update(f) => r is Ok && final(self)@ == f,
                FieldEffect::Unknown => (r matches Err(RequestError::UnknownField(x)) && x@
                    == field@) && final(self)@ == old(self)@,
                FieldEffect::Invalid => (r matches Err(
                    RequestError::InvalidValue { field: x, value: y },
                ) && x@ == field@ && y@ == trim(raw@)) && final(self)@ == old(self)@,
            },
    {
        let v = chars_of(raw);
        let (a, b) = trim_range(&v, 0, v.len());
        assert(v@.subrange(0, v@.len() as int) =~= v@);
        let ghost t = v@.subrange(a as int, b as int);
        if a == b {
            return Ok(());
        }
        proof {
            reveal_strlit("material_id");
            reveal_strlit("infill_percent");
            reveal_strlit("supports");
            reveal_strlit("cost");
            reveal_strlit("base_fee");
            assert("material_id"@ =~= key_material_id());
            assert("infill_percent"@ =~= key_infill_percent());
            assert("supports"@ =~= key_supports());
            assert("cost"@ =~= key_cost());
            assert("base_fee"@ =~= key_base_fee());
        }
        if same_text(field, "material_id") {
            self.material_id = Some(string_of(&v, a, b));
            return Ok(());
        }
        let ok = if same_text(field, "infill_percent") {
            match parse_decimal_in(&v, a, b, MAX_INFILL_PERCENT) {
                Some(n) => {
                    self.infill_percent = Some(n as u8);
                    true
                },
                None => false,
            }
        } else if same_text(field, "supports") {
            match flag_in(&v, a, b) {
                Some(flag) => {
                    self.supports = Some(flag);
                    true
                },
                None => false,
            }
        } else if same_text(field, "cost") {
            if is_float_literal_chars(&copy_range(&v, a, b)) {
                self.cost_per_kg_override = Some(string_of(&v, a, b));
                true
            } else {
                false
            }
        } else if same_text(field, "base_fee") {
            if is_float_literal_chars(&copy_range(&v, a, b)) {
                self.base_fee_override = Some(string_of(&v, a, b));
                true
            } else {
                false
            }
        } else {
            return Err(RequestError::UnknownField(String::from_str(field)));
        };
        if ok {
            Ok(())
        } else {
            Err(RequestError::InvalidValue { field: String::from_str(field), value: string_of(&v, a, b) })
        }
    }
}

/// What to do with a multipart field.
#[derive(Debug, Clone, Copy, PartialEq, Eq, Structural)]
pub enum FieldAction {
    /// Read the field as the uploaded file.
    ReadFile,
    /// Read the field as text and apply it to the form options.
    ReadText,
}

/// Decides what to do with a multipart field named `name`, when a file field
/// has (`file_seen`) or has not been read before.
pub fn field_action(name: Option<&str>, file_seen: bool) -> (r: Result<FieldAction, RequestError>)
    ensures
        name is None ==> r matches Err(RequestError::MissingFieldName),
        name matches Some(n) && n@ == key_file() ==> (if file_seen {
            r matches Err(RequestError::MultipleFiles)
        } else {
            r == Ok::<FieldAction, RequestError>(FieldAction::ReadFile)
        }),
        name matches Some(n) && n@ != key_file() ==> r == Ok::<FieldAction, RequestError>(
            FieldAction::ReadText,
        ),
{
    proof {
        reveal_strlit("file");
        assert("file"@ =~= key_file());
    }
    match name {
        None => Err(RequestError::MissingFieldName),
        Some(n) => if same_text(n, "file") {
            if file_seen {
                Err(RequestError::MultipleFiles)
            } else {
                Ok(FieldAction::ReadFile)
            }
        } else {
            Ok(FieldAction::ReadText)
        },
    }
}

/// Counts a received chunk of `chunk_len` bytes into the `total` received so
/// far; refused once the total exceeds `max` bytes.
pub fn accept_chunk(total: usize, chunk_len: usize, max: usize) -> (r: Result<usize, RequestError>)
    requires
        total + chunk_len <= usize::MAX,
    ensures
        total + chunk_len <= max ==> r == Ok::<usize, RequestError>((total + chunk_len) as usize),
        total + chunk_len > max ==> (r matches Err(RequestError::FileTooLarge(m)) && m == max),
{
    let sum = total + chunk_len;
    if sum > max {
        Err(RequestError::FileTooLarge(max))
    } else {
        Ok(sum)
    }
}

// ---------------------------------------------------------------------------
// Quote inputs of requests
/// `material_id`, or the default material when it is empty.
pub open spec fn requested_material(material_id: Seq<char>) -> Seq<char> {
    if material_id.len() == 0 {
        default_material_id()
    } else {
        material_id
    }
}

/// The quote input the front end makes for material `material_id`: one
/// piece at standard turnaround with the front end's infill, supports and
/// the material's own prices.
pub open spec fn is_request_input(q: QuoteInput, material_id: Seq<char>) -> bool {
    &&& q.material_id@ == material_id
    &&& q.infill_percent == Some(REQUEST_INFILL_PERCENT)
    &&& q.supports
    &&& q.cost_per_kg_override is None
    &&& q.base_fee_override is None
    &&& q.quantity == 1
    &&& q.turnaround == Turnaround::Standard
}

/// The quote input of an upload form `f`: one piece at standard turnaround
/// of the form's material (or the default one), with the form's infill (or
/// the front end's), supports (or supports on) and price overrides.
pub open spec fn is_form_input(q: QuoteInput, f: FormView) -> bool {
    &&& q.material_id@ == (match f.material_id {
        Some(m) => m,
        None => default_material_id(),
    })
    &&& q.infill_percent == Some(
        match f.infill_percent {
            Some(p) => p,
            None => REQUEST_INFILL_PERCENT,
        },
    )
    &&& q.supports == (match f.supports {
        Some(s) => s,
        None => true,
    })
    &&& opt_view(q.cost_per_kg_override) == f.cost_per_kg_override
    &&& opt_view(q.base_fee_override) == f.base_fee_override
    &&& q.quantity == 1
    &&& q.turnaround == Turnaround::Standard
}

fn request_input(material_id: String) -> (q: QuoteInput)
    ensures
        is_request_input(q, material_id@),
{
    let mut q = QuoteInput::material(material_id);
    q.infill_percent = Some(REQUEST_INFILL_PERCENT);
    q
}

fn default_material() -> (s: String)
    ensures
        s@ == default_material_id(),
{
    proof {
        reveal_strlit("pla");
        assert("pla"@ =~= default_material_id());
    }
    String::from_str("pla")
}

/// The quote input for a G-code quote request naming `material_id` (the
/// default material when empty).
pub fn gcode_request_input(material_id: String) -> (q: QuoteInput)
    ensures
        is_request_input(q, requested_material(material_id@)),
{
    if material_id.as_str().is_empty() {
        request_input(default_material())
    } else {
        request_input(material_id)
    }
}

fn clone_opt(o: &Option<String>) -> (r: Option<String>)
    ensures
        opt_view(r) == opt_view(*o),
{
    match o {
        Some(s) => Some(s.clone()),
        None => None,
    }
}

/// The file name (or `upload`) and quote input of an upload form.
pub fn file_request(form: &FormOptions) -> (r: (String, QuoteInput))
    ensures
        r.0@ == (match form.filename {
            Some(f) => f@,
            None => seq!['u', 'p', 'l', 'o', 'a', 'd'],
        }),
        is_form_input(r.1, form@),
{
    proof {
        reveal_strlit("upload");
        assert("upload"@ =~= seq!['u', 'p', 'l', 'o', 'a', 'd']);
    }
    let file_name = match &form.filename {
        Some(f) => f.clone(),
        None => String::from_str("upload"),
    };
    let material_id = match &form.material_id {
        Some(m) => m.clone(),
        None => default_material(),
    };
    let mut input = QuoteInput::material(material_id);
    input.infill_percent = Some(
        match form.infill_percent {
            Some(p) => p,
            None => REQUEST_INFILL_PERCENT,
        },
    );
    input.supports = match form.supports {
        Some(s) => s,
        None => true,
    };
    input.cost_per_kg_override = clone_opt(&form.cost_per_kg_override);
    input.base_fee_override = clone_opt(&form.base_fee_override);
    (file_name, input)
}

/// The end of an upload form: the uploaded file, its name (or `upload`) and
/// the quote input of the form; refused when no file was sent.
pub fn finish_upload(file: Option<Vec<u8>>, form: &FormOptions) -> (r: Result<
    (Vec<u8>, String, QuoteInput),
    RequestError,
>)
    ensures
        file is None ==> r matches Err(RequestError::MissingFile),
        file matches Some(d) ==> (r matches Ok((data, name, q)) && data@ == d@ && name@ == (
        match form.filename {
            Some(f) => f@,
            None => seq!['u', 'p', 'l', 'o', 'a', 'd'],
        }) && is_form_input(q, form@)),
{
    match file {
        None => Err(RequestError::MissingFile),
        Some(data) => {
            let (name, input) = file_request(form);
            Ok((data, name, input))
        },
    }
}

/// A form whose price overrides are numbers gives a quote input whose price
/// overrides are numbers, as quoting requires.
pub proof fn law_form_input_numbers_valid(q: QuoteInput, f: FormView)
    requires
        is_form_input(q, f),
        form_numbers_valid(f),
    ensures
        input_numbers_valid(q),
{
}

/// Applying a field keeps the price overrides of the form readable as
/// numbers.
pub proof fn law_form_numbers_stay_valid(f: FormView, field: Seq<char>, raw: Seq<char>)
    requires
        form_numbers_valid(f),
    ensures
        field_effect(f, field, raw) matches FieldEffect::Update(g) ==> form_numbers_valid(g),
{
}

proof fn lemma_digits_value_nonneg(d: Seq<char>)
    requires
        all_digits(d),
    ensures
        decimal_value(d) >= 0,
    decreases d.len(),
{
    if d.len() > 0 {
        let front = d.drop_last();
        assert forall|j: int| 0 <= j < front.len() implies is_digit(#[trigger] front[j]) by {
            assert(front[j] == d[j]);
        }
        assert(is_digit(d[d.len() - 1]));
        lemma_digits_value_nonneg(front);
    }
}

/// A form field sets its own option and no other: the value it sets is the
/// field's trimmed text (read as a number from 0 to 100 for the infill), and
/// every other option, the file name among them, stays as it was.
pub proof fn law_field_sets_only_its_option(
    f: FormView,
    field: Seq<char>,
    raw: Seq<char>,
    g: FormView,
)
    requires
        field_effect(f, field, raw) == FieldEffect::Update(g),
    ensures
        trim(raw).len() > 0,
        g.filename == f.filename,
        field == key_material_id() ==> g.material_id == Some(trim(raw)),
        field == key_infill_percent() ==> (g.infill_percent matches Some(n) && n <= 100
            && parse_decimal(trim(raw), 100) == Some(n as int)),
        field == key_supports() ==> g.supports == parse_flag(trim(raw)),
        field == key_cost() ==> g.cost_per_kg_override == Some(trim(raw)),
        field == key_base_fee() ==> g.base_fee_override == Some(trim(raw)),
        field != key_material_id() ==> g.material_id == f.material_id,
        field != key_infill_percent() ==> g.infill_percent == f.infill_percent,
        field != key_supports() ==> g.supports == f.supports,
        field != key_cost() ==> g.cost_per_kg_override == f.cost_per_kg_override,
        field != key_base_fee() ==> g.base_fee_override == f.base_fee_override,
{
    assert(key_material_id().len() == 11 && key_infill_percent().len() == 14);
    assert(key_supports().len() == 8 && key_cost().len() == 4 && key_base_fee().len() == 8);
    assert(key_supports()[0] != key_base_fee()[0]);
    if field == key_infill_percent() {
        lemma_digits_value_nonneg(plus_stripped(trim(raw)));
    }
}

// ---------------------------------------------------------------------------
// Kind of an uploaded file
/// The last component of a `/`-separated path whose tail, scanned backwards,
/// is `seg`: empty and `.` components are skipped, a final `..` has no name.
pub open spec fn file_name_from(p: Seq<char>, seg: Seq<char>) -> Option<Seq<char>>
    decreases p.len(),
{
    if p.len() == 0 || p.last() == '/' {
        if seg.len() == 0 || seg == seq!['.'] {
            if p.len() == 0 {
                None
            } else {
                file_name_from(p.drop_last(), seq![])
            }
        } else if seg == seq!['.', '.'] {
            None
        } else {
            Some(seg)
        }
    } else {
        file_name_from(p.drop_last(), seq![p.last()] + seg)
    }
}

/// `Path::file_name` for a Unix path.
pub open spec fn file_name(p: Seq<char>) -> Option<Seq<char>> {
    file_name_from(p, seq![])
}

/// Index of the last occurrence of `c`.
pub open spec fn find_last(s: Seq<char>, c: char) -> Option<int>
    decreases s.len(),
{
    if s.len() == 0 {
        None
    } else if s.last() == c {
        Some(s.len() - 1)
    } else {
        find_last(s.drop_last(), c)
    }
}

/// `Path::extension` of a file name: what follows its last `.`, unless that
/// `.` is its first character.
pub open spec fn extension(name: Seq<char>) -> Option<Seq<char>> {
    match find_last(name, '.') {
        Some(i) => if i == 0 {
            None
        } else {
            Some(name.skip(i + 1))
        },
        None => None,
    }
}

/// The extension of the file named by the path `p`.
pub open spec fn path_extension(p: Seq<char>) -> Option<Seq<char>> {
    match file_name(p) {
        Some(f) => extension(f),
        None => None,
    }
}

pub open spec fn ext_gcode() -> Seq<char> {
    seq!['g', 'c', 'o', 'd', 'e']
}

pub open spec fn ext_3mf() -> Seq<char> {
    seq!['3', 'm', 'f']
}

pub open spec fn ext_stl() -> Seq<char> {
    seq!['s', 't', 'l']
}

pub open spec fn starts_with(data: Seq<u8>, prefix: Seq<u8>) -> bool {
    prefix.len() <= data.len() && data.take(prefix.len() as int) == prefix
}

/// Zip archives (3MF) start with `PK\x03\x04`.
pub open spec fn zip_magic() -> Seq<u8> {
    seq![0x50u8, 0x4bu8, 0x03u8, 0x04u8]
}

/// `solid ` (ASCII STL).
pub open spec fn stl_lower_magic() -> Seq<u8> {
    seq![0x73u8, 0x6fu8, 0x6cu8, 0x69u8, 0x64u8, 0x20u8]
}

/// `SOLID `.
pub open spec fn stl_upper_magic() -> Seq<u8> {
    seq![0x53u8, 0x4fu8, 0x4cu8, 0x49u8, 0x44u8, 0x20u8]
}

/// `;` (a G-code comment).
pub open spec fn gcode_comment_magic() -> Seq<u8> {
    seq![0x3bu8]
}

/// `G` (a G-code command).
pub open spec fn gcode_command_magic() -> Seq<u8> {
    seq![0x47u8]
}

/// The kind that the content of a file without a usable name reveals.
pub open spec fn sniffed_kind(data: Seq<u8>) -> Option<ModelKind> {
    if starts_with(data, zip_magic()) {
        Some(ModelKind::ThreeMf)
    } else if starts_with(data, stl_lower_magic()) || starts_with(data, stl_upper_magic()) {
        Some(ModelKind::Stl)
    } else if starts_with(data, gcode_comment_magic()) || starts_with(data, gcode_command_magic()) {
        Some(ModelKind::Gcode)
    } else {
        None
    }
}

pub open spec fn lowered(s: Seq<char>) -> Seq<char> {
    s.map_values(|c: char| ascii_lower(c))
}

/// The outcome of recognising a file named `name` with content `data`: the
/// name's extension decides when it has one; otherwise the content does.
pub open spec fn detect_outcome(
    name: Option<Seq<char>>,
    data: Seq<u8>,
    r: Result<ModelKind, RequestError>,
) -> bool {
    let ext = match name {
        Some(n) => path_extension(n),
        None => None,
    };
    match ext {
        Some(e) => if eq_ignore_case(e, ext_gcode()) {
            r == Ok::<ModelKind, RequestError>(ModelKind::Gcode)
        } else if eq_ignore_case(e, ext_3mf()) {
            r == Ok::<ModelKind, RequestError>(ModelKind::ThreeMf)
        } else if eq_ignore_case(e, ext_stl()) {
            r == Ok::<ModelKind, RequestError>(ModelKind::Stl)
        } else {
            (r matches Err(RequestError::UnsupportedExtension(x)) && x@ == lowered(e))
        },
        None => match sniffed_kind(data) {
            Some(k) => r == Ok::<ModelKind, RequestError>(k),
            None => r matches Err(RequestError::UnknownFileType),
        },
    }
}

proof fn lemma_find_last(s: Seq<char>, c: char, k: int)
    requires
        0 <= k <= s.len(),
        forall|j: int| k <= j < s.len() ==> s[j] != c,
        k > 0 ==> s[k - 1] == c,
    ensures
        find_last(s, c) == (if k > 0 {
            Some(k - 1)
        } else {
            None::<int>
        }),
    decreases s.len(),
{
    if s.len() > 0 && k < s.len() {
        let t = s.drop_last();
        assert forall|j: int| k <= j < t.len() implies t[j] != c by {
            assert(t[j] == s[j]);
        }
        if k > 0 {
            assert(t[k - 1] == s[k - 1]);
        }
        lemma_find_last(t, c, k);
    }
}

/// The range of the file name component of the path `v`.
fn file_name_range(v: &Vec<char>) -> (r: Option<(usize, usize)>)
    ensures
        match file_name(v@) {
            Some(f) => (r matches Some((a, b)) && a <= b <= v.len() && v@.subrange(a as int, b as int)
                == f),
            None => r is None,
        },
{
    let ghost whole = file_name(v@);
    let mut i = v.len();
    let mut end = v.len();
    assert(v@.take(i as int) =~= v@);
    assert(v@.subrange(i as int, end as int) =~= Seq::<char>::empty());
    loop
        invariant
            i <= end <= v.len(),
            whole == file_name(v@),
            whole == file_name_from(v@.take(i as int), v@.subrange(i as int, end as int)),
        decreases i,
    {
        let ghost p = v@.take(i as int);
        let ghost seg = v@.subrange(i as int, end as int);
        if i == 0 || v[i - 1] == '/' {
            if i > 0 {
                assert(p.last() == v@[i - 1]);
            }
            if end - i == 0 || (end - i == 1 && v[i] == '.') {
                if end - i == 1 {
                    assert(seg =~= seq!['.']);
                }
                if i == 0 {
                    return None;
                }
                assert(p.drop_last() =~= v@.take(i - 1));
                assert(v@.subrange(i - 1, i - 1) =~= Seq::<char>::empty());
                i = i - 1;
                end = i;
            } else if end - i == 2 && v[i] == '.' && v[i + 1] == '.' {
                assert(seg =~= seq!['.', '.']);
                return None;
            } else {
                proof {
                    if seg == seq!['.'] {
                        assert(seg[0] == v@[i as int]);
                    }
                    if seg == seq!['.', '.'] {
                        assert(seg[0] == v@[i as int] && seg[1] == v@[i + 1]);
                    }
                }
                return Some((i, end));
            }
        } else {
            assert(p.last() == v@[i - 1]);
            assert(p.drop_last() =~= v@.take(i - 1));
            assert(seq![p.last()] + seg =~= v@.subrange(i - 1, end as int));
            i = i - 1;
        }
    }
}

/// The range of the extension within `v[a..b]`, a file name.
fn extension_range(v: &Vec<char>, a: usize, b: usize) -> (r: Option<usize>)
    requires
        a <= b <= v.len(),
    ensures
        match extension(v@.subrange(a as int, b as int)) {
            Some(e) => (r matches Some(x) && a <= x <= b && v@.subrange(x as int, b as int) == e),
            None => r is None,
        },
{
    let ghost name = v@.subrange(a as int, b as int);
    let mut k = b;
    while k > a && v[k - 1] != '.'
        invariant
            a <= k <= b <= v.len(),
            forall|j: int| k <= j < b ==> v@[j] != '.',
        decreases k - a,
    {
        k = k - 1;
    }
    proof {
        assert forall|j: int| k - a <= j < name.len() implies name[j] != '.' by {
            assert(name[j] == v@[a + j]);
        }
        if k > a {
            assert(name[k - a - 1] == v@[k - 1]);
        }
        lemma_find_last(name, '.', k - a);
    }
    if k == a || k - 1 == a {
        None
    } else {
        assert(name.skip(k - a) =~= v@.subrange(k as int, b as int));
        Some(k)
    }
}

fn prefix_is(data: &[u8], prefix: &Vec<u8>) -> (r: bool)
    ensures
        r == starts_with(data@, prefix@),
{
    if prefix.len() > data.len() {
        return false;
    }
    let mut j: usize = 0;
    while j < prefix.len()
        invariant
            prefix.len() <= data@.len(),
            j <= prefix.len(),
            forall|q: int| 0 <= q < j ==> data@[q] == prefix@[q],
        decreases prefix.len() - j,
    {
        if data[j] != prefix[j] {
            assert(data@.take(prefix@.len() as int)[j as int] != prefix@[j as int]);
            return false;
        }
        j = j + 1;
    }
    assert(data@.take(prefix@.len() as int) =~= prefix@);
    true
}

/// Recognises the kind of an uploaded file from its name (by extension,
/// case-insensitively) or, without a usable name, from its first bytes.
pub fn detect_model_kind(file_name: Option<&str>, data: &[u8]) -> (r: Result<
    ModelKind,
    RequestError,
>)
    ensures
        detect_outcome(
            match file_name {
                Some(n) => Some(n@),
                None => None,
            },
            data@,
            r,
        ),
{
    if let Some(name) = file_name {
        let v = chars_of(name);
        if let Some((a, b)) = file_name_range(&v) {
            if let Some(x) = extension_range(&v, a, b) {
                let ghost e = v@.subrange(x as int, b as int);
                if eq_ignore_case_in(&v, x, b, &vec!['g', 'c', 'o', 'd', 'e']) {
                    return Ok(ModelKind::Gcode);
                }
                if eq_ignore_case_in(&v, x, b, &vec!['3', 'm', 'f']) {
                    return Ok(ModelKind::ThreeMf);
                }
                if eq_ignore_case_in(&v, x, b, &vec!['s', 't', 'l']) {
                    return Ok(ModelKind::Stl);
                }
                let mut low: Vec<char> = Vec::new();
                let mut k = x;
                while k < b
                    invariant
                        x <= k <= b <= v.len(),
                        e == v@.subrange(x as int, b as int),
                        low@ == lowered(e).take(k - x),
                    decreases b - k,
                {
                    low.push(lower_char(v[k]));
                    assert(low@ =~= lowered(e).take(k + 1 - x));
                    k = k + 1;
                }
                assert(low@ =~= lowered(e));
                return Err(RequestError::UnsupportedExtension(string_of(&low, 0, low.len())));
            }
        }
    }
    let zip: Vec<u8> = vec![0x50u8, 0x4bu8, 0x03u8, 0x04u8];
    let stl_lower: Vec<u8> = vec![0x73u8, 0x6fu8, 0x6cu8, 0x69u8, 0x64u8, 0x20u8];
    let stl_upper: Vec<u8> = vec![0x53u8, 0x4fu8, 0x4cu8, 0x49u8, 0x44u8, 0x20u8];
    let comment: Vec<u8> = vec![0x3bu8];
    let command: Vec<u8> = vec![0x47u8];
    assert(zip@ == zip_magic());
    assert(stl_lower@ == stl_lower_magic());
    assert(stl_upper@ == stl_upper_magic());
    assert(comment@ == gcode_comment_magic());
    assert(command@ == gcode_command_magic());
    if prefix_is(data, &zip) {
        return Ok(ModelKind::ThreeMf);
    }
    if prefix_is(data, &stl_lower) || prefix_is(data, &stl_upper) {
        return Ok(ModelKind::Stl);
    }
    if prefix_is(data, &comment) || prefix_is(data, &command) {
        return Ok(ModelKind::Gcode);
    }
    Err(RequestError::UnknownFileType)
}

/// A file name with an extension decides the kind alone: two files of that
/// name are recognised alike whatever their content.
pub proof fn law_extension_decides(
    name: Seq<char>,
    data1: Seq<u8>,
    data2: Seq<u8>,
    r1: Result<ModelKind, RequestError>,
    r2: Result<ModelKind, RequestError>,
)
    requires
        path_extension(name) is Some,
        detect_outcome(Some(name), data1, r1),
        detect_outcome(Some(name), data2, r2),
    ensures
        r1 is Ok <==> r2 is Ok,
        r1 is Ok ==> r1 == r2,
{
}

/// The extension is recognised whatever its letter case.
pub proof fn law_extension_case_insensitive(e1: Seq<char>, e2: Seq<char>, word: Seq<char>)
    requires
        lowered(e1) == lowered(e2),
    ensures
        eq_ignore_case(e1, word) == eq_ignore_case(e2, word),
{
    assert(e1.len() == lowered(e1).len() && e2.len() == lowered(e2).len());
    assert forall|j: int| 0 <= j < e1.len() implies ascii_lower(e1[j]) == ascii_lower(e2[j]) by {
        assert(lowered(e1)[j] == lowered(e2)[j]);
        assert(lowered(e1)[j] == ascii_lower(e1[j]));
        assert(lowered(e2)[j] == ascii_lower(e2[j]));
    }
}

/// A path without `/` is a file name of its own: scanning it backwards in
/// front of `seg` comes to the same as scanning the whole of it at once.
proof fn lemma_name_without_slash(p: Seq<char>, seg: Seq<char>)
    requires
        forall|j: int| 0 <= j < p.len() ==> p[j] != '/',
    ensures
        file_name_from(p, seg) == file_name_from(seq![], p + seg),
    decreases p.len(),
{
    if p.len() == 0 {
        assert(p + seg =~= seg);
    } else {
        let q = p.drop_last();
        assert(p.last() == p[p.len() - 1]);
        assert forall|j: int| 0 <= j < q.len() implies q[j] != '/' by {
            assert(q[j] == p[j]);
        }
        lemma_name_without_slash(q, seq![p.last()] + seg);
        assert(q + (seq![p.last()] + seg) =~= p + seg);
    }
}

/// The extension of a file name is what follows its last `.`: a name made of
/// a non-empty stem, a `.` and a non-empty `e` without `.` has the extension
/// `e`, whatever dots the stem holds.
pub proof fn law_extension_after_last_dot(stem: Seq<char>, e: Seq<char>)
    requires
        stem.len() > 0,
        e.len() > 0,
        forall|j: int| 0 <= j < stem.len() ==> stem[j] != '/',
        forall|j: int| 0 <= j < e.len() ==> e[j] != '/' && e[j] != '.',
    ensures
        path_extension(stem + seq!['.'] + e) == Some(e),
{
    let f = stem + seq!['.'] + e;
    assert forall|j: int| 0 <= j < f.len() implies f[j] != '/' by {
        if j < stem.len() {
            assert(f[j] == stem[j]);
        } else if j > stem.len() {
            assert(f[j] == e[j - stem.len() - 1]);
        }
    }
    lemma_name_without_slash(f, seq![]);
    assert(f + seq![] =~= f);
    assert(f.len() >= 3);
    assert(f != seq!['.']) by {
        assert(seq!['.'].len() == 1);
    }
    assert(f != seq!['.', '.']) by {
        assert(seq!['.', '.'].len() == 2);
    }
    assert(file_name(f) == Some(f));
    assert forall|j: int| stem.len() + 1 <= j < f.len() implies f[j] != '.' by {
        assert(f[j] == e[j - stem.len() - 1]);
    }
    assert(f[stem.len() as int] == '.');
    lemma_find_last(f, '.', stem.len() + 1int);
    assert(f.skip(stem.len() + 1int) =~= e);
}

/// A file whose name ends in `.gcode`, `.3mf` or `.stl` (in any letter case)
/// is recognised as that kind, whatever other dots the name holds and
/// whatever its content.
pub proof fn law_known_extension_recognised(
    stem: Seq<char>,
    e: Seq<char>,
    data: Seq<u8>,
    r: Result<ModelKind, RequestError>,
)
    requires
        stem.len() > 0,
        forall|j: int| 0 <= j < stem.len() ==> stem[j] != '/',
        detect_outcome(Some(stem + seq!['.'] + e), data, r),
    ensures
        eq_ignore_case(e, ext_gcode()) ==> r == Ok::<ModelKind, RequestError>(ModelKind::Gcode),
        eq_ignore_case(e, ext_3mf()) ==> r == Ok::<ModelKind, RequestError>(ModelKind::ThreeMf),
        eq_ignore_case(e, ext_stl()) ==> r == Ok::<ModelKind, RequestError>(ModelKind::Stl),
{
    if eq_ignore_case(e, ext_gcode()) || eq_ignore_case(e, ext_3mf()) || eq_ignore_case(e, ext_stl()) {
        assert forall|j: int| 0 <= j < e.len() implies e[j] != '/' && e[j] != '.' by {
            if eq_ignore_case(e, ext_gcode()) {
                assert(ascii_lower(e[j]) == ext_gcode()[j]);
            } else if eq_ignore_case(e, ext_3mf()) {
                assert(ascii_lower(e[j]) == ext_3mf()[j]);
            } else {
                assert(ascii_lower(e[j]) == ext_stl()[j]);
            }
        }
        law_extension_after_last_dot(stem, e);
    }
}

// ---------------------------------------------------------------------------
// Upload limit
/// `usize::from_str`: an optional `+`, then one or more ASCII digits whose
/// value fits a `usize`.
pub open spec fn parse_usize(s: Seq<char>) -> Option<int> {
    parse_decimal(s, usize::MAX as int)
}

/// The configured upload limit in MiB: a positive number, else the default.
pub open spec fn upload_limit_mb(setting: Option<Seq<char>>) -> int {
    match setting {
        Some(s) => match parse_usize(s) {
            Some(v) => if v > 0 {
                v
            } else {
                DEFAULT_MAX_UPLOAD_MB as int
            },
            None => DEFAULT_MAX_UPLOAD_MB as int,
        },
        None => DEFAULT_MAX_UPLOAD_MB as int,
    }
}

/// The upload limit in bytes for the configured setting (in MiB); `None`
/// when that many bytes do not fit a `usize`.
pub fn max_upload_bytes(setting: Option<&str>) -> (r: Option<usize>)
    ensures
        ({
            let mb = upload_limit_mb(
                match setting {
                    Some(s) => Some(s@),
                    None => None,
                },
            );
            &&& mb * 1024 * 1024 <= usize::MAX ==> r == Some((mb * 1024 * 1024) as usize)
            &&& mb * 1024 * 1024 > usize::MAX ==> r is None
        }),
{
    let ghost opt = match setting {
        Some(s) => Some(s@),
        None => None,
    };
    let mut mb: usize = DEFAULT_MAX_UPLOAD_MB;
    if let Some(s) = setting {
        let v = chars_of(s);
        assert(v@.subrange(0, v@.len() as int) =~= v@);
        let parsed = parse_decimal_in(&v, 0, v.len(), usize::MAX);
        if let Some(value) = parsed {
            if value > 0 {
                mb = value;
            }
        }
    }
    assert(mb == upload_limit_mb(opt));
    if mb > usize::MAX / (1024 * 1024) {
        assert(mb * 1024 * 1024 > usize::MAX) by (nonlinear_arith)
            requires
                mb as int > (usize::MAX as int) / 1048576,
        ;
        None
    } else {
        assert(mb * 1024 * 1024 <= usize::MAX) by (nonlinear_arith)
            requires
                mb as int <= (usize::MAX as int) / 1048576,
        ;
        Some(mb * 1024 * 1024)
    }
}

// ---------------------------------------------------------------------------
// Error answers
/// The HTTP status an engine error is answered with: 400 for requests that
/// cannot be quoted, 501 for missing capabilities, 500 otherwise.
pub fn engine_error_status(err: &EngineError) -> (status: u16)
    ensures
        status == match err {
            EngineError::InvalidInput(_) | EngineError::UnsupportedFormat(_) => 400u16,
            EngineError::NotImplemented { .. } => 501u16,
            EngineError::Parse(_) => 500u16,
        },
{
    match err {
        EngineError::InvalidInput(_) | EngineError::UnsupportedFormat(_) => 400,
        EngineError::NotImplemented { .. } => 501,
        EngineError::Parse(_) => 500,
    }
}

} // verus!
