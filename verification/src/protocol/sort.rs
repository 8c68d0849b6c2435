//! Sort parameters of list endpoints: `field[:asc|desc]`, comma separated.
use vstd::prelude::*;
use vstd::string::*;

use crate::text;
use crate::text::{concat, find, split, str_eq, to_ascii_lowercase, trim};

verus! {

#[derive(Debug, Clone, Copy, PartialEq, Eq, Structural)]
pub enum SortDirection {
    Asc,
    Desc,
}

/// The wire text of a direction.
pub open spec fn direction_text(d: SortDirection) -> Seq<char> {
    match d {
        SortDirection::Asc => "asc"@,
        SortDirection::Desc => "desc"@,
    }
}

/// Reading a direction: surrounding whitespace is dropped and ASCII case is
/// ignored; anything but `asc` or `desc` is refused with a message that
/// quotes the normalised text.
pub open spec fn parse_direction_spec(s: Seq<char>) -> Result<SortDirection, Seq<char>> {
    let t = text::ascii_lowercase(text::trimmed(s));
    if t == "asc"@ {
        Ok(SortDirection::Asc)
    } else if t == "desc"@ {
        Ok(SortDirection::Desc)
    } else {
        Err("invalid sort direction: "@ + t)
    }
}

pub open spec fn direction_result_view(r: Result<SortDirection, String>) -> Result<
    SortDirection,
    Seq<char>,
> {
    match r {
        Ok(d) => Ok(d),
        Err(e) => Err(e@),
    }
}

impl SortDirection {
    /// Parses a direction as the wire format writes it.
    pub fn parse(s: &str) -> (r: Result<SortDirection, String>)
        ensures
            direction_result_view(r) == parse_direction_spec(s@),
    {
        let t = to_ascii_lowercase(trim(s));
        if str_eq(t.as_str(), "asc") {
            Ok(SortDirection::Asc)
        } else if str_eq(t.as_str(), "desc") {
            Ok(SortDirection::Desc)
        } else {
            Err(concat("invalid sort direction: ", t.as_str()))
        }
    }

    /// The wire text: `asc` or `desc`.
    pub fn as_str(&self) -> (r: &'static str)
        ensures
            r@ == direction_text(*self),
    {
        match self {
            SortDirection::Asc => "asc",
            SortDirection::Desc => "desc",
        }
    }

    /// The wire text as an owned string.
    pub fn to_string(&self) -> (r: String)
        ensures
            r@ == direction_text(*self),
    {
        self.as_str().to_owned()
    }
}

impl std::str::FromStr for SortDirection {
    type Err = String;

    fn from_str(s: &str) -> (r: Result<Self, Self::Err>)
        ensures
            direction_result_view(r) == parse_direction_spec(s@),
    {
        SortDirection::parse(s)
    }
}


/// One sort key: a field name and its direction. On the wire it reads
/// `field:direction`; a missing direction means ascending.
#[derive(Debug, Clone, PartialEq, Eq)]
pub struct SortField {
    pub field: String,
    pub direction: SortDirection,
}

impl View for SortField {
    type V = (Seq<char>, SortDirection);

    open spec fn view(&self) -> (Seq<char>, SortDirection) {
        (self.field@, self.direction)
    }
}

/// The wire text of a sort key.
pub open spec fn sort_field_text(f: (Seq<char>, SortDirection)) -> Seq<char> {
    f.0 + ":"@ + direction_text(f.1)
}

/// Reading one sort key. The text is trimmed and must not be empty; it is
/// split at its first `:`; the field name (trimmed) must not be empty; the
/// direction after the colon, if any, is read as `parse_direction_spec` reads
/// it, and is ascending where there is no colon.
pub open spec fn parse_sort_field_spec(raw: Seq<char>) -> Result<
    (Seq<char>, SortDirection),
    Seq<char>,
> {
    let r = text::trimmed(raw);
    if r.len() == 0 {
        Err("invalid sort field"@)
    } else {
        match text::find_char(r, ':') {
            None => Ok((r, SortDirection::Asc)),
            Some(i) => {
                let f = text::trimmed(r.subrange(0, i));
                if f.len() == 0 {
                    Err("invalid sort field"@)
                } else {
                    match parse_direction_spec(text::trimmed(r.subrange(i + 1, r.len() as int))) {
                        Ok(d) => Ok((f, d)),
                        Err(e) => Err(e),
                    }
                }
            },
        }
    }
}

pub open spec fn field_result_view(r: Result<SortField, String>) -> Result<
    (Seq<char>, SortDirection),
    Seq<char>,
> {
    match r {
        Ok(f) => Ok(f@),
        Err(e) => Err(e@),
    }
}

impl SortField {
    /// Parses one sort key from its wire text.
    pub fn parse(raw: &str) -> (r: Result<SortField, String>)
        ensures
            field_result_view(r) == parse_sort_field_spec(raw@),
    {
        let raw = trim(raw);
        if raw.is_empty() {
            return Err(String::from_str("invalid sort field"));
        }
        let n = raw.unicode_len();
        match find(raw, ':') {
            None => Ok(SortField { field: raw.to_owned(), direction: SortDirection::Asc }),
            Some(i) => {
                let field = trim(raw.substring_char(0, i));
                if field.is_empty() {
                    return Err(String::from_str("invalid sort field"));
                }
                let dir = trim(raw.substring_char(i + 1, n));
                match SortDirection::parse(dir) {
                    Ok(direction) => Ok(SortField { field: field.to_owned(), direction }),
                    Err(e) => Err(e),
                }
            },
        }
    }

    /// The wire text `field:direction`.
    pub fn to_string(&self) -> (r: String)
        ensures
            r@ == sort_field_text(self@),
    {
        let head = concat(self.field.as_str(), ":");
        concat(head.as_str(), self.direction.as_str())
    }
}

impl std::str::FromStr for SortField {
    type Err = String;

    fn from_str(raw: &str) -> (r: Result<Self, Self::Err>)
        ensures
            field_result_view(r) == parse_sort_field_spec(raw@),
    {
        SortField::parse(raw)
    }
}


/// An ordered list of sort keys; the first key sorts first.
#[derive(Debug, Clone, PartialEq, Eq)]
pub struct SortFields(pub Vec<SortField>);

impl View for SortFields {
    type V = Seq<(Seq<char>, SortDirection)>;

    open spec fn view(&self) -> Seq<(Seq<char>, SortDirection)> {
        self.0@.map_values(|f: SortField| f@)
    }
}

/// Direction of the first key named `name`, or `default` where none is.
pub open spec fn direction_of(
    fields: Seq<(Seq<char>, SortDirection)>,
    name: Seq<char>,
    default: SortDirection,
) -> SortDirection
    decreases fields.len(),
{
    if fields.len() == 0 {
        default
    } else if fields[0].0 == name {
        fields[0].1
    } else {
        direction_of(fields.drop_first(), name, default)
    }
}

/// Whether some key is named `name`.
pub open spec fn has_field(fields: Seq<(Seq<char>, SortDirection)>, name: Seq<char>) -> bool {
    exists|i: int| 0 <= i < fields.len() && #[trigger] fields[i].0 == name
}

/// The keys that a default sort given as `(name, direction)` pairs stands for.
pub open spec fn default_sort_view(defaults: Seq<(&str, SortDirection)>) -> Seq<
    (Seq<char>, SortDirection),
> {
    defaults.map_values(|p: (&str, SortDirection)| (p.0@, p.1))
}

/// Name of the first key that `allowed` does not list.
pub open spec fn first_unknown_field(
    fields: Seq<(Seq<char>, SortDirection)>,
    allowed: Seq<Seq<char>>,
) -> Option<Seq<char>>
    decreases fields.len(),
{
    if fields.len() == 0 {
        None
    } else if !allowed.contains(fields[0].0) {
        Some(fields[0].0)
    } else {
        first_unknown_field(fields.drop_first(), allowed)
    }
}

pub open spec fn str_seq_view(s: Seq<&str>) -> Seq<Seq<char>> {
    s.map_values(|t: &str| t@)
}

/// `acc` followed by what `r` holds, or the error of `r`.
pub open spec fn prepend_fields(
    acc: Seq<(Seq<char>, SortDirection)>,
    r: Result<Seq<(Seq<char>, SortDirection)>, Seq<char>>,
) -> Result<Seq<(Seq<char>, SortDirection)>, Seq<char>> {
    match r {
        Ok(rest) => Ok(acc + rest),
        Err(e) => Err(e),
    }
}

/// Reading the comma-separated pieces of a sort string: every piece, trimmed,
/// must be a non-empty sort key; the first piece that is not gives the error.
pub open spec fn parse_sort_parts(parts: Seq<Seq<char>>) -> Result<
    Seq<(Seq<char>, SortDirection)>,
    Seq<char>,
>
    decreases parts.len(),
{
    if parts.len() == 0 {
        Ok(Seq::empty())
    } else {
        let p = text::trimmed(parts[0]);
        if p.len() == 0 {
            Err("invalid sort field"@)
        } else {
            match parse_sort_field_spec(p) {
                Err(e) => Err(e),
                Ok(f) => prepend_fields(seq![f], parse_sort_parts(parts.drop_first())),
            }
        }
    }
}

/// Reading one sort string: blank text is no keys at all; otherwise the
/// comma-separated pieces are read in order.
pub open spec fn parse_sort_text(raw: Seq<char>) -> Result<
    Seq<(Seq<char>, SortDirection)>,
    Seq<char>,
> {
    if text::trimmed(raw).len() == 0 {
        Ok(Seq::empty())
    } else {
        parse_sort_parts(text::split_on(raw, ','))
    }
}

/// Reading a list of sort strings: the keys of each, in order.
pub open spec fn parse_sort_texts(items: Seq<Seq<char>>) -> Result<
    Seq<(Seq<char>, SortDirection)>,
    Seq<char>,
>
    decreases items.len(),
{
    if items.len() == 0 {
        Ok(Seq::empty())
    } else {
        match parse_sort_text(items[0]) {
            Err(e) => Err(e),
            Ok(a) => prepend_fields(a, parse_sort_texts(items.drop_first())),
        }
    }
}

pub open spec fn fields_result_view(r: Result<SortFields, String>) -> Result<
    Seq<(Seq<char>, SortDirection)>,
    Seq<char>,
> {
    match r {
        Ok(f) => Ok(f@),
        Err(e) => Err(e@),
    }
}

proof fn lemma_prepend_assoc(
    a: Seq<(Seq<char>, SortDirection)>,
    b: Seq<(Seq<char>, SortDirection)>,
    r: Result<Seq<(Seq<char>, SortDirection)>, Seq<char>>,
)
    ensures
        prepend_fields(a, prepend_fields(b, r)) == prepend_fields(a + b, r),
{
    if let Ok(rest) = r {
        assert(a + (b + rest) =~= (a + b) + rest);
    }
}

/// The keys of one sort string, in order (see `parse_sort_text`).
fn parse_sort_text_exec(raw: &str) -> (r: Result<Vec<SortField>, String>)
    ensures
        match r {
            Ok(v) => parse_sort_text(raw@) == Ok::<_, Seq<char>>(
                v@.map_values(|f: SortField| f@),
            ),
            Err(e) => parse_sort_text(raw@) == Err::<Seq<(Seq<char>, SortDirection)>, _>(e@),
        },
{
    let mut out: Vec<SortField> = Vec::new();
    if trim(raw).is_empty() {
        proof {
            assert(out@.map_values(|f: SortField| f@) =~= Seq::<(Seq<char>, SortDirection)>::empty());
        }
        return Ok(out);
    }
    let parts = split(raw, ',');
    let ghost pv = parts@.map_values(|p: String| p@);
    let n = parts.len();
    let mut i: usize = 0;
    proof {
        assert(pv.subrange(0, n as int) =~= pv);
        assert(out@.map_values(|f: SortField| f@) =~= Seq::<(Seq<char>, SortDirection)>::empty());
        if let Ok(rest) = parse_sort_parts(pv) {
            assert(Seq::<(Seq<char>, SortDirection)>::empty() + rest =~= rest);
        }
    }
    while i < n
        invariant
            n == parts@.len(),
            pv == parts@.map_values(|p: String| p@),
            pv == text::split_on(raw@, ','),
            text::trimmed(raw@).len() != 0,
            i <= n,
            parse_sort_parts(pv) == prepend_fields(
                out@.map_values(|f: SortField| f@),
                parse_sort_parts(pv.subrange(i as int, n as int)),
            ),
        decreases n - i,
    {
        let part = trim(parts[i].as_str());
        let ghost rest = pv.subrange(i as int, n as int);
        proof {
            assert(rest[0] == parts@[i as int]@);
            assert(rest.drop_first() =~= pv.subrange(i + 1, n as int));
        }
        if part.is_empty() {
            return Err(String::from_str("invalid sort field"));
        }
        proof {
            assert(text::trimmed(part@) == text::trimmed(text::trimmed(rest[0])));
        }
        match SortField::parse(part) {
            Err(e) => {
                return Err(e);
            },
            Ok(f) => {
                let ghost before = out@.map_values(|f: SortField| f@);
                proof {
                    text::lemma_trimmed_idempotent(rest[0]);
                    lemma_prepend_assoc(before, seq![f@], parse_sort_parts(rest.drop_first()));
                }
                out.push(f);
                proof {
                    assert(out@.map_values(|f: SortField| f@) =~= before + seq![f@]);
                }
            },
        }
        i = i + 1;
    }
    proof {
        if let Ok(rest) = parse_sort_parts(pv.subrange(n as int, n as int)) {
            assert(rest =~= Seq::<(Seq<char>, SortDirection)>::empty());
        }
        assert(out@.map_values(|f: SortField| f@) + Seq::<(Seq<char>, SortDirection)>::empty()
            =~= out@.map_values(|f: SortField| f@));
    }
    Ok(out)
}

/// A field name that a sort key can carry through its wire text unchanged:
/// not empty, without `:` or `,`, and without surrounding whitespace.
pub open spec fn is_plain_field_name(name: Seq<char>) -> bool {
    &&& name.len() > 0
    &&& !name.contains(':')
    &&& !name.contains(',')
    &&& text::no_outer_whitespace(name)
}

proof fn lemma_direction_text_round_trip(d: SortDirection)
    ensures
        direction_text(d).len() > 0,
        text::no_outer_whitespace(direction_text(d)),
        !direction_text(d).contains(':'),
        !direction_text(d).contains(','),
        parse_direction_spec(direction_text(d)) == Ok::<_, Seq<char>>(d),
{
    reveal_strlit("asc");
    reveal_strlit("desc");
    let t = direction_text(d);
    text::lemma_trimmed_no_outer(t);
    assert(text::ascii_lowercase(t) =~= t);
}

/// A sort key whose field name is plain reads back from its wire text.
pub proof fn lemma_sort_field_round_trip(f: (Seq<char>, SortDirection))
    requires
        is_plain_field_name(f.0),
    ensures
        parse_sort_field_spec(sort_field_text(f)) == Ok::<_, Seq<char>>(f),
{
    reveal_strlit(":");
    lemma_direction_text_round_trip(f.1);
    let n = f.0;
    let d = direction_text(f.1);
    let t = sort_field_text(f);
    assert(t =~= n + seq![':'] + d);
    assert(t[0] == n[0]);
    assert(t.last() == d.last());
    text::lemma_trimmed_no_outer(t);
    assert forall|k: int| 0 <= k < n.len() implies #[trigger] t[k] != ':' by {
        assert(t[k] == n[k]);
    }
    text::lemma_find_char_at(t, ':', n.len() as int);
    assert(t.subrange(0, n.len() as int) =~= n);
    assert(t.subrange(n.len() as int + 1, t.len() as int) =~= d);
    text::lemma_trimmed_no_outer(n);
    text::lemma_trimmed_no_outer(d);
}

/// The wire text of a sort key with a plain field name is one piece with no
/// comma in it.
proof fn lemma_sort_field_text_single(f: (Seq<char>, SortDirection))
    requires
        is_plain_field_name(f.0),
    ensures
        text::trimmed(sort_field_text(f)) == sort_field_text(f),
        sort_field_text(f).len() > 0,
        text::split_on(sort_field_text(f), ',') == seq![sort_field_text(f)],
        !sort_field_text(f).contains(','),
{
    reveal_strlit(":");
    lemma_direction_text_round_trip(f.1);
    let n = f.0;
    let d = direction_text(f.1);
    let t = sort_field_text(f);
    assert(t =~= n + seq![':'] + d);
    assert(t[0] == n[0]);
    assert(t.last() == d.last());
    text::lemma_trimmed_no_outer(t);
    assert forall|k: int| 0 <= k < t.len() implies #[trigger] t[k] != ',' by {
        if k < n.len() {
            assert(t[k] == n[k]);
        } else if k > n.len() {
            assert(t[k] == d[k - n.len() - 1]);
        }
    }
    text::lemma_find_char_none(t, ',');
}

/// Sort keys with plain field names, written as a list of wire texts, read
/// back as the same keys in the same order.
pub proof fn lemma_sort_fields_round_trip(fields: Seq<(Seq<char>, SortDirection)>)
    requires
        forall|i: int| 0 <= i < fields.len() ==> is_plain_field_name(#[trigger] fields[i].0),
    ensures
        parse_sort_texts(fields.map_values(|f: (Seq<char>, SortDirection)| sort_field_text(f)))
            == Ok::<_, Seq<char>>(fields),
    decreases fields.len(),
{
    let texts = fields.map_values(|f: (Seq<char>, SortDirection)| sort_field_text(f));
    if fields.len() > 0 {
        let f = fields[0];
        assert(is_plain_field_name(fields[0].0));
        lemma_sort_field_text_single(f);
        lemma_sort_field_round_trip(f);
        let t = sort_field_text(f);
        assert(texts[0] == t);
        assert(seq![t].drop_first() =~= Seq::<Seq<char>>::empty());
        assert(parse_sort_parts(seq![t]) == Ok::<_, Seq<char>>(seq![f])) by {
            assert(seq![t][0] == t);
            assert(parse_sort_parts(seq![t].drop_first()) == Ok::<_, Seq<char>>(
                Seq::<(Seq<char>, SortDirection)>::empty(),
            ));
            assert(seq![f] + Seq::<(Seq<char>, SortDirection)>::empty() =~= seq![f]);
        }
        assert(parse_sort_text(t) == Ok::<_, Seq<char>>(seq![f]));
        let rest = fields.drop_first();
        assert forall|i: int| 0 <= i < rest.len() implies is_plain_field_name(
            #[trigger] rest[i].0,
        ) by {
            assert(rest[i] == fields[i + 1]);
        }
        lemma_sort_fields_round_trip(rest);
        assert(texts.drop_first() =~= rest.map_values(
            |f: (Seq<char>, SortDirection)| sort_field_text(f),
        ));
        assert(parse_sort_texts(texts.drop_first()) == Ok::<_, Seq<char>>(rest));
        assert(seq![f] + rest =~= fields);
        assert(parse_sort_texts(texts) == prepend_fields(
            seq![f],
            parse_sort_texts(texts.drop_first()),
        ));
    } else {
        assert(texts =~= Seq::<Seq<char>>::empty());
        assert(fields =~= Seq::<(Seq<char>, SortDirection)>::empty());
    }
}

/// Sort keys written as one comma-separated string.
pub open spec fn join_sort_texts(fields: Seq<(Seq<char>, SortDirection)>) -> Seq<char>
    decreases fields.len(),
{
    if fields.len() <= 1 {
        if fields.len() == 1 {
            sort_field_text(fields[0])
        } else {
            Seq::empty()
        }
    } else {
        sort_field_text(fields[0]) + seq![','] + join_sort_texts(fields.drop_first())
    }
}

proof fn lemma_join_split(fields: Seq<(Seq<char>, SortDirection)>)
    requires
        fields.len() > 0,
        forall|i: int| 0 <= i < fields.len() ==> is_plain_field_name(#[trigger] fields[i].0),
    ensures
        text::split_on(join_sort_texts(fields), ',') == fields.map_values(
            |f: (Seq<char>, SortDirection)| sort_field_text(f),
        ),
        parse_sort_parts(text::split_on(join_sort_texts(fields), ',')) == Ok::<_, Seq<char>>(
            fields,
        ),
        join_sort_texts(fields)[0] == sort_field_text(fields[0])[0],
    decreases fields.len(),
{
    let f = fields[0];
    assert(is_plain_field_name(fields[0].0));
    lemma_sort_field_text_single(f);
    lemma_sort_field_round_trip(f);
    let t = sort_field_text(f);
    let texts = fields.map_values(|g: (Seq<char>, SortDirection)| sort_field_text(g));
    if fields.len() == 1 {
        assert(texts =~= seq![t]);
        assert(seq![t].drop_first() =~= Seq::<Seq<char>>::empty());
        assert(parse_sort_parts(seq![t].drop_first()) == Ok::<_, Seq<char>>(
            Seq::<(Seq<char>, SortDirection)>::empty(),
        ));
        assert(seq![f] + Seq::<(Seq<char>, SortDirection)>::empty() =~= fields);
    } else {
        let rest = fields.drop_first();
        assert forall|i: int| 0 <= i < rest.len() implies is_plain_field_name(
            #[trigger] rest[i].0,
        ) by {
            assert(rest[i] == fields[i + 1]);
        }
        lemma_join_split(rest);
        let tail = join_sort_texts(rest);
        text::lemma_split_on_cons(t, ',', tail);
        let parts = text::split_on(join_sort_texts(fields), ',');
        assert(parts =~= seq![t] + text::split_on(tail, ','));
        assert(parts =~= texts);
        assert(parts[0] == t);
        assert(parts.drop_first() =~= text::split_on(tail, ','));
        assert(seq![f] + rest =~= fields);
        assert((t + seq![','] + tail)[0] == t[0]);
    }
}

/// Sort keys with plain field names, written as one comma-separated string,
/// read back as the same keys in the same order.
pub proof fn lemma_sort_string_round_trip(fields: Seq<(Seq<char>, SortDirection)>)
    requires
        fields.len() > 0,
        forall|i: int| 0 <= i < fields.len() ==> is_plain_field_name(#[trigger] fields[i].0),
    ensures
        parse_sort_text(join_sort_texts(fields)) == Ok::<_, Seq<char>>(fields),
{
    lemma_join_split(fields);
    assert(is_plain_field_name(fields[0].0));
    lemma_sort_field_text_single(fields[0]);
    let j = join_sort_texts(fields);
    let t = sort_field_text(fields[0]);
    assert(t.len() > 0);
    assert(text::trimmed(t) == t);
    assert(!text::is_whitespace(t[0])) by {
        if text::is_whitespace(t[0]) {
            text::lemma_trim_end_prefix(text::trim_start(t));
            assert(text::trim_start(t) == text::trim_start(t.drop_first()));
            text::lemma_trim_start_len(t.drop_first());
        }
    }
    assert(text::trim_start(j) == j);
    text::lemma_trim_end_prefix(j);
    assert(j.len() > 0);
    assert(text::trimmed(j).len() > 0) by {
        text::lemma_trim_end_nonempty(j);
    }
}

/// What `with_tie_breaker` leaves: the keys unchanged where one is named
/// `name` already, or else `name` appended with `dir`.
pub open spec fn tie_broken(
    fields: Seq<(Seq<char>, SortDirection)>,
    name: Seq<char>,
    dir: SortDirection,
) -> Seq<(Seq<char>, SortDirection)> {
    if has_field(fields, name) {
        fields
    } else {
        fields.push((name, dir))
    }
}

/// After a tie-breaker is added the key is present, its direction is the one
/// it had or else `dir`, and adding it again changes nothing.
pub proof fn lemma_tie_breaker(
    fields: Seq<(Seq<char>, SortDirection)>,
    name: Seq<char>,
    dir: SortDirection,
    other: SortDirection,
)
    ensures
        has_field(tie_broken(fields, name, dir), name),
        tie_broken(tie_broken(fields, name, dir), name, other) == tie_broken(fields, name, dir),
        direction_of(tie_broken(fields, name, dir), name, other) == direction_of(
            fields,
            name,
            dir,
        ),
{
    let t = tie_broken(fields, name, dir);
    if !has_field(fields, name) {
        assert(t[fields.len() as int].0 == name);
        lemma_direction_of_append(fields, name, dir, other);
    }
    assert(has_field(t, name));
    if has_field(fields, name) {
        lemma_direction_of_present(fields, name, dir, other);
    }
}

proof fn lemma_direction_of_append(
    fields: Seq<(Seq<char>, SortDirection)>,
    name: Seq<char>,
    dir: SortDirection,
    other: SortDirection,
)
    requires
        !has_field(fields, name),
    ensures
        direction_of(fields.push((name, dir)), name, other) == dir,
        direction_of(fields, name, dir) == dir,
    decreases fields.len(),
{
    if fields.len() > 0 {
        assert(fields[0].0 != name);
        let rest = fields.drop_first();
        assert(!has_field(rest, name)) by {
            if has_field(rest, name) {
                let i = choose|i: int| 0 <= i < rest.len() && #[trigger] rest[i].0 == name;
                assert(fields[i + 1].0 == name);
            }
        }
        lemma_direction_of_append(rest, name, dir, other);
        assert(fields.push((name, dir)).drop_first() =~= rest.push((name, dir)));
    } else {
        assert(fields.push((name, dir))[0].0 == name);
    }
}

proof fn lemma_direction_of_present(
    fields: Seq<(Seq<char>, SortDirection)>,
    name: Seq<char>,
    a: SortDirection,
    b: SortDirection,
)
    requires
        has_field(fields, name),
    ensures
        direction_of(fields, name, a) == direction_of(fields, name, b),
    decreases fields.len(),
{
    if fields[0].0 != name {
        let rest = fields.drop_first();
        let i = choose|i: int| 0 <= i < fields.len() && #[trigger] fields[i].0 == name;
        assert(rest[i - 1].0 == name);
        lemma_direction_of_present(rest, name, a, b);
    }
}

impl core::ops::Deref for SortFields {
    type Target = [SortField];

    fn deref(&self) -> (r: &[SortField])
        ensures
            r@ == self.0@,
    {
        self.0.as_slice()
    }
}

impl Default for SortFields {
    fn default() -> (r: Self)
        ensures
            r@ == Seq::<(Seq<char>, SortDirection)>::empty(),
    {
        SortFields(Vec::new())
    }
}

impl SortFields {
    /// Reads sort keys from one string such as `a:asc,b:desc`.
    pub fn from_sort_string(raw: &str) -> (r: Result<SortFields, String>)
        ensures
            fields_result_view(r) == parse_sort_text(raw@),
    {
        match parse_sort_text_exec(raw) {
            Ok(v) => Ok(SortFields(v)),
            Err(e) => Err(e),
        }
    }

    /// Reads sort keys from a list of strings, each of which may itself hold
    /// several comma-separated keys.
    pub fn from_sort_strings(items: &Vec<String>) -> (r: Result<SortFields, String>)
        ensures
            fields_result_view(r) == parse_sort_texts(items@.map_values(|s: String| s@)),
    {
        let ghost iv = items@.map_values(|s: String| s@);
        let n = items.len();
        let mut out: Vec<SortField> = Vec::new();
        let mut i: usize = 0;
        proof {
            assert(iv.subrange(0, n as int) =~= iv);
            assert(out@.map_values(|f: SortField| f@) =~= Seq::<(Seq<char>, SortDirection)>::empty());
            if let Ok(rest) = parse_sort_texts(iv) {
                assert(Seq::<(Seq<char>, SortDirection)>::empty() + rest =~= rest);
            }
        }
        while i < n
            invariant
                n == items@.len(),
                iv == items@.map_values(|s: String| s@),
                i <= n,
                parse_sort_texts(iv) == prepend_fields(
                    out@.map_values(|f: SortField| f@),
                    parse_sort_texts(iv.subrange(i as int, n as int)),
                ),
            decreases n - i,
        {
            let ghost rest = iv.subrange(i as int, n as int);
            proof {
                assert(rest[0] == items@[i as int]@);
                assert(rest.drop_first() =~= iv.subrange(i + 1, n as int));
            }
            match parse_sort_text_exec(items[i].as_str()) {
                Err(e) => {
                    return Err(e);
                },
                Ok(mut v) => {
                    let ghost before = out@.map_values(|f: SortField| f@);
                    let ghost added = v@.map_values(|f: SortField| f@);
                    proof {
                        lemma_prepend_assoc(before, added, parse_sort_texts(rest.drop_first()));
                    }
                    out.append(&mut v);
                    proof {
                        assert(out@.map_values(|f: SortField| f@) =~= before + added);
                    }
                },
            }
            i = i + 1;
        }
        proof {
            if let Ok(rest) = parse_sort_texts(iv.subrange(n as int, n as int)) {
                assert(rest =~= Seq::<(Seq<char>, SortDirection)>::empty());
            }
            assert(out@.map_values(|f: SortField| f@) + Seq::<(Seq<char>, SortDirection)>::empty()
                =~= out@.map_values(|f: SortField| f@));
        }
        Ok(SortFields(out))
    }

    /// The wire texts of the keys, in order.
    pub fn to_strings(&self) -> (r: Vec<String>)
        ensures
            r@.map_values(|s: String| s@) == self@.map_values(
                |f: (Seq<char>, SortDirection)| sort_field_text(f),
            ),
    {
        let n = self.0.len();
        let mut out: Vec<String> = Vec::new();
        let mut i: usize = 0;
        while i < n
            invariant
                n == self.0@.len(),
                i <= n,
                out@.map_values(|s: String| s@) == self@.subrange(0, i as int).map_values(
                    |f: (Seq<char>, SortDirection)| sort_field_text(f),
                ),
            decreases n - i,
        {
            let t = self.0[i].to_string();
            let ghost before = out@.map_values(|s: String| s@);
            out.push(t);
            proof {
                assert(out@.map_values(|s: String| s@) =~= before.push(t@));
                assert(self@.subrange(0, i + 1).map_values(
                    |f: (Seq<char>, SortDirection)| sort_field_text(f),
                ) =~= before.push(t@));
            }
            i = i + 1;
        }
        proof {
            assert(self@.subrange(0, n as int) =~= self@);
        }
        out
    }

    pub fn new(fields: Vec<SortField>) -> (r: Self)
        ensures
            r.0 == fields,
    {
        SortFields(fields)
    }

    /// Looks up the sort direction for `field`, returning `default` if the field
    /// is not present.
    pub fn dir(&self, field: &str, default: SortDirection) -> (r: SortDirection)
        ensures
            r == direction_of(self@, field@, default),
    {
        let n = self.0.len();
        let mut i: usize = 0;
        proof {
            assert(self@.subrange(0, n as int) =~= self@);
        }
        while i < n
            invariant
                n == self.0@.len(),
                i <= n,
                direction_of(self@, field@, default) == direction_of(
                    self@.subrange(i as int, n as int),
                    field@,
                    default,
                ),
            decreases n - i,
        {
            let sf = &self.0[i];
            proof {
                assert(self@.subrange(i as int, n as int)[0] == sf@);
                assert(self@.subrange(i as int, n as int).drop_first() =~= self@.subrange(
                    i + 1,
                    n as int,
                ));
            }
            if str_eq(sf.field.as_str(), field) {
                return sf.direction;
            }
            i = i + 1;
        }
        default
    }

    /// If empty, populates with `default_sort`.
    pub fn or_default(&mut self, default_sort: &[(&str, SortDirection)]) -> (r: &mut Self)
        ensures
            r@ == (if old(self)@.len() == 0 {
                default_sort_view(default_sort@)
            } else {
                old(self)@
            }),
            *final(self) == *final(r),
    {
        if self.0.len() == 0 {
            let mut fields: Vec<SortField> = Vec::new();
            let n = default_sort.len();
            let mut i: usize = 0;
            while i < n
                invariant
                    n == default_sort@.len(),
                    i <= n,
                    fields@.map_values(|f: SortField| f@) == default_sort_view(
                        default_sort@.subrange(0, i as int),
                    ),
                decreases n - i,
            {
                let (name, direction) = default_sort[i];
                let ghost before = fields@.map_values(|f: SortField| f@);
                fields.push(SortField { field: name.to_owned(), direction });
                proof {
                    assert(fields@.map_values(|f: SortField| f@) =~= before.push(
                        (name@, direction),
                    ));
                    assert(default_sort_view(default_sort@.subrange(0, i + 1)) =~= before.push(
                        (name@, direction),
                    ));
                }
                i = i + 1;
            }
            proof {
                assert(default_sort@.subrange(0, n as int) =~= default_sort@);
            }
            self.0 = fields;
        }
        self
    }

    /// Checks all fields against `allowed_fields`; an unrecognized field is an error.
    pub fn validate(&mut self, allowed_fields: &[&str]) -> (r: Result<&mut Self, String>)
        ensures
            match first_unknown_field(old(self)@, str_seq_view(allowed_fields@)) {
                Some(name) => r matches Err(e) && e@ == "invalid sort field: "@ + name
                    && *final(self) == *old(self),
                None => r matches Ok(m) && *m == *old(self) && *final(self) == *final(m),
            },
    {
        let n = self.0.len();
        let m = allowed_fields.len();
        let ghost allowed = str_seq_view(allowed_fields@);
        let mut i: usize = 0;
        proof {
            assert(self@.subrange(0, n as int) =~= self@);
        }
        while i < n
            invariant
                n == self.0@.len(),
                m == allowed_fields@.len(),
                allowed == str_seq_view(allowed_fields@),
                i <= n,
                first_unknown_field(self@, allowed) == first_unknown_field(
                    self@.subrange(i as int, n as int),
                    allowed,
                ),
            decreases n - i,
        {
            let name = self.0[i].field.as_str();
            proof {
                assert(self@.subrange(i as int, n as int)[0].0 == name@);
                assert(self@.subrange(i as int, n as int).drop_first() =~= self@.subrange(
                    i + 1,
                    n as int,
                ));
            }
            let mut j: usize = 0;
            let mut found = false;
            while j < m
                invariant
                    m == allowed_fields@.len(),
                    allowed == str_seq_view(allowed_fields@),
                    j <= m,
                    found == exists|k: int| 0 <= k < j && #[trigger] allowed[k] == name@,
                decreases m - j,
            {
                if str_eq(allowed_fields[j], name) {
                    found = true;
                    proof {
                        assert(allowed[j as int] == name@);
                    }
                }
                j = j + 1;
            }
            proof {
                if found {
                    let k = choose|k: int| 0 <= k < m && #[trigger] allowed[k] == name@;
                    assert(allowed.contains(name@));
                } else {
                    assert(!allowed.contains(name@));
                }
            }
            if !found {
                return Err(concat("invalid sort field: ", name));
            }
            i = i + 1;
        }
        Ok(self)
    }

    /// Appends `field` with `dir` if not already present, to guarantee
    /// deterministic ordering for pagination.
    pub fn with_tie_breaker(&mut self, field: &str, dir: SortDirection) -> (r: &mut Self)
        ensures
            r@ == tie_broken(old(self)@, field@, dir),
            *final(self) == *final(r),
    {
        let n = self.0.len();
        let mut i: usize = 0;
        let mut present = false;
        while i < n
            invariant
                n == self.0@.len(),
                i <= n,
                present == exists|k: int| 0 <= k < i && #[trigger] self@[k].0 == field@,
            decreases n - i,
        {
            if str_eq(self.0[i].field.as_str(), field) {
                present = true;
                proof {
                    assert(self@[i as int].0 == field@);
                }
            }
            i = i + 1;
        }
        if !present {
            let ghost before = self@;
            self.0.push(SortField { field: field.to_owned(), direction: dir });
            proof {
                assert(self@ =~= before.push((field@, dir)));
            }
        }
        self
    }
}

} // verus!

verus! {

/// `validate` finds no unknown field exactly when every key's field is
/// allowed; where it finds one, that is the field of the first key that is not
/// allowed.
pub proof fn lemma_unknown_field_is_first_disallowed(
    fields: Seq<(Seq<char>, SortDirection)>,
    allowed: Seq<Seq<char>>,
)
    ensures
        first_unknown_field(fields, allowed) is None <==> (forall|i: int|
            0 <= i < fields.len() ==> allowed.contains(#[trigger] fields[i].0)),
        first_unknown_field(fields, allowed) matches Some(name) ==> exists|i: int|
            0 <= i < fields.len() && #[trigger] fields[i].0 == name && !allowed.contains(name)
                && forall|j: int| 0 <= j < i ==> allowed.contains(#[trigger] fields[j].0),
    decreases fields.len(),
{
    if fields.len() > 0 {
        let rest = fields.drop_first();
        lemma_unknown_field_is_first_disallowed(rest, allowed);
        if allowed.contains(fields[0].0) {
            assert forall|i: int| 1 <= i < fields.len() implies fields[i].0 == #[trigger] rest[i
                - 1].0 by {}
            if first_unknown_field(rest, allowed) is None {
                assert forall|i: int| 0 <= i < fields.len() implies allowed.contains(
                    #[trigger] fields[i].0,
                ) by {
                    if i > 0 {
                        assert(fields[i].0 == rest[i - 1].0);
                    }
                }
            } else {
                let name = first_unknown_field(rest, allowed)->Some_0;
                let k = choose|k: int|
                    0 <= k < rest.len() && #[trigger] rest[k].0 == name && !allowed.contains(name)
                        && forall|j: int| 0 <= j < k ==> allowed.contains(#[trigger] rest[j].0);
                assert(fields[k + 1].0 == name);
                assert forall|j: int| 0 <= j < k + 1 implies allowed.contains(
                    #[trigger] fields[j].0,
                ) by {
                    if j > 0 {
                        assert(fields[j].0 == rest[j - 1].0);
                    }
                }
                assert(!allowed.contains(rest[k].0));
                assert(!(forall|i: int|
                    0 <= i < fields.len() ==> allowed.contains(#[trigger] fields[i].0))) by {
                    assert(!allowed.contains(fields[k + 1].0));
                }
            }
        } else {
            assert(fields[0].0 == first_unknown_field(fields, allowed)->Some_0);
        }
    }
}

/// `dir` gives the direction of the first key whose field is `name`, and
/// `default` only where no key has that field.
pub proof fn lemma_dir_is_first_match(
    fields: Seq<(Seq<char>, SortDirection)>,
    name: Seq<char>,
    default: SortDirection,
    i: int,
)
    ensures
        (forall|k: int| 0 <= k < fields.len() ==> #[trigger] fields[k].0 != name) ==> direction_of(
            fields,
            name,
            default,
        ) == default,
        (0 <= i < fields.len() && fields[i].0 == name && forall|j: int|
            0 <= j < i ==> #[trigger] fields[j].0 != name) ==> direction_of(fields, name, default)
            == fields[i].1,
    decreases fields.len(),
{
    if fields.len() > 0 {
        let rest = fields.drop_first();
        lemma_dir_is_first_match(rest, name, default, i - 1);
        if forall|k: int| 0 <= k < fields.len() ==> #[trigger] fields[k].0 != name {
            assert(fields[0].0 != name);
            assert forall|k: int| 0 <= k < rest.len() implies #[trigger] rest[k].0 != name by {
                assert(rest[k] == fields[k + 1]);
            }
        }
        if 0 <= i < fields.len() && fields[i].0 == name && forall|j: int|
            0 <= j < i ==> #[trigger] fields[j].0 != name {
            if i > 0 {
                assert(fields[0].0 != name);
                assert(rest[i - 1] == fields[i]);
                assert forall|j: int| 0 <= j < i - 1 implies #[trigger] rest[j].0 != name by {
                    assert(rest[j] == fields[j + 1]);
                }
            }
        }
    }
}

} // verus!
