//! How a registry asks for a token: the `WWW-Authenticate` header.

use vstd::hash_map::StringHashMap;
use vstd::prelude::*;
use vstd::string::*;

use crate::text;

verus! {

/// A parameter: its key and its value.
pub type Param = (Seq<char>, Seq<char>);

/// What follows the quoted value that `s` starts after: commas and white space are passed over.
pub open spec fn after_quoted(s: Seq<char>) -> Seq<char> {
    text::trimmed_start(text::without_leading(s, ","@))
}

/// The parameter at the start of `s`, and what follows it. A value is either in quotes or goes on
/// to the next comma. There is no parameter without an equals sign or with an open quote.
pub open spec fn first_param(s: Seq<char>) -> Option<(Param, Seq<char>)> {
    match text::after(s, '=') {
        None => None,
        Some(value) => {
            let key = text::trimmed(text::before(s, '='));
            if value.len() > 0 && value[0] == '"' {
                match text::after(value.skip(1), '"') {
                    None => None,
                    Some(rest) => Some(
                        ((key, text::before(value.skip(1), '"')), after_quoted(rest)),
                    ),
                }
            } else {
                match text::after(value, ',') {
                    None => Some(((key, value), Seq::empty())),
                    Some(rest) => Some(
                        ((key, text::before(value, ',')), text::trimmed_start(rest)),
                    ),
                }
            }
        },
    }
}

/// The parameters that `s` consists of, if it consists of parameters.
pub open spec fn param_list(s: Seq<char>) -> Option<Seq<Param>>
    decreases s.len(),
{
    if s.len() == 0 {
        Some(Seq::empty())
    } else {
        match first_param(s) {
            None => None,
            Some((param, rest)) => {
                proof {
                    rest_is_shorter(s);
                }
                match param_list(rest) {
                    None => None,
                    Some(params) => Some(seq![param] + params),
                }
            },
        }
    }
}

/// The value that each key has last in `params`.
pub open spec fn param_map(params: Seq<Param>) -> Map<Seq<char>, Seq<char>>
    decreases params.len(),
{
    if params.len() == 0 {
        Map::empty()
    } else {
        param_map(params.drop_last()).insert(params.last().0, params.last().1)
    }
}

/// The parameters of a challenge for a bearer token, if `header` is one.
pub open spec fn challenge_params(header: Seq<char>) -> Option<Map<Seq<char>, Seq<char>>> {
    if "Bearer "@.is_prefix_of(header) {
        match param_list(text::trimmed(header.skip("Bearer "@.len() as int))) {
            Some(params) => Some(param_map(params)),
            None => None,
        }
    } else {
        None
    }
}

/// Trimming the start makes no text longer.
proof fn trimmed_start_is_no_longer(s: Seq<char>)
    ensures
        text::trimmed_start(s).len() <= s.len(),
    decreases s.len(),
{
    if s.len() > 0 {
        trimmed_start_is_no_longer(s.skip(1));
    }
}

/// Removing what stands at the start makes no text longer.
proof fn without_leading_is_no_longer(s: Seq<char>, part: Seq<char>)
    ensures
        text::without_leading(s, part).len() <= s.len(),
    decreases s.len(),
{
    if part.len() > 0 && part.is_prefix_of(s) {
        without_leading_is_no_longer(s.skip(part.len() as int), part);
    }
}

/// What follows the first parameter is shorter than the whole.
pub proof fn rest_is_shorter(s: Seq<char>)
    ensures
        first_param(s) matches Some((_, rest)) ==> rest.len() < s.len(),
{
    s.index_of_first_ensures('=');
    if let Some(value) = text::after(s, '=') {
        value.skip(1).index_of_first_ensures('"');
        value.index_of_first_ensures(',');
        if let Some(rest) = text::after(value.skip(1), '"') {
            without_leading_is_no_longer(rest, ","@);
            trimmed_start_is_no_longer(text::without_leading(rest, ","@));
        }
        if let Some(rest) = text::after(value, ',') {
            trimmed_start_is_no_longer(rest);
        }
    }
}

/// The parameters of a challenge, by key.
pub struct AuthParams {
    values: StringHashMap<String>,
}

impl View for AuthParams {
    type V = Map<Seq<char>, Seq<char>>;

    closed spec fn view(&self) -> Map<Seq<char>, Seq<char>> {
        self.values@.map_values(|value: String| value@)
    }
}

impl AuthParams {
    /// No parameters.
    fn new() -> (params: Self)
        ensures
            params@ == Map::<Seq<char>, Seq<char>>::empty(),
    {
        let params = AuthParams { values: StringHashMap::new() };
        assert(params@ =~= Map::empty());
        params
    }

    /// Sets the value of `key`.
    fn insert(&mut self, key: String, value: String)
        ensures
            final(self)@ == old(self)@.insert(key@, value@),
    {
        self.values.insert(key, value);
        assert(self@ =~= old(self)@.insert(key@, value@));
    }

    /// The value of `key`, if it has one.
    pub fn get(&self, key: &str) -> (value: Option<&String>)
        ensures
            match value {
                Some(found) => self@.contains_key(key@) && found@ == self@[key@],
                None => !self@.contains_key(key@),
            },
    {
        self.values.get(key)
    }
}

/// Divides `s` into its first parameter, as key and value, and what follows.
fn next_param(s: &str) -> (param: Option<(String, String, &str)>)
    ensures
        match param {
            Some((key, value, rest)) => first_param(s@) == Some(((key@, value@), rest@)),
            None => first_param(s@) is None,
        },
{
    let value = match text::text_after(s, '=') {
        Some(value) => value,
        None => {
            return None;
        },
    };
    let key = text::trim(text::text_before(s, '=')).to_string();
    let len = value.unicode_len();
    if len > 0 && value.get_char(0) == '"' {
        let quoted = value.substring_char(1, len);
        assert(quoted@ =~= value@.skip(1));
        match text::text_after(quoted, '"') {
            Some(rest) => Some(
                (
                    key,
                    text::text_before(quoted, '"').to_string(),
                    text::trim_start(text::strip_leading(rest, ",")),
                ),
            ),
            None => None,
        }
    } else {
        match text::text_after(value, ',') {
            Some(rest) => Some(
                (key, text::text_before(value, ',').to_string(), text::trim_start(rest)),
            ),
            None => {
                let end = value.substring_char(len, len);
                assert(end@ =~= Seq::empty());
                Some((key, value.to_string(), end))
            },
        }
    }
}

/// The parameters of a challenge for a bearer token; none where the header is something else.
pub fn parse_www_authenticate(header: &str) -> (params: Option<AuthParams>)
    ensures
        match params {
            Some(found) => challenge_params(header@) == Some(found@),
            None => challenge_params(header@) is None,
        },
{
    if !text::starts_with(header, "Bearer ") {
        return None;
    }
    let prefix_len = "Bearer ".unicode_len();
    let header_len = header.unicode_len();
    let mut remaining = text::trim(header.substring_char(prefix_len, header_len));
    let ghost all = remaining@;
    let ghost mut done: Seq<Param> = Seq::empty();
    assert(header@.subrange(prefix_len as int, header_len as int) =~= header@.skip(
        prefix_len as int,
    ));
    let mut params = AuthParams::new();
    proof {
        if let Some(list) = param_list(all) {
            assert(done + list =~= list);
        }
    }
    while !remaining.is_empty()
        invariant
            "Bearer "@.is_prefix_of(header@),
            all == text::trimmed(header@.skip("Bearer "@.len() as int)),
            match param_list(remaining@) {
                Some(list) => param_list(all) == Some(done + list),
                None => param_list(all) is None,
            },
            params@ == param_map(done),
        decreases remaining@.len(),
    {
        let (key, value, rest) = match next_param(remaining) {
            Some(found) => found,
            None => {
                return None;
            },
        };
        proof {
            rest_is_shorter(remaining@);
            let param = (key@, value@);
            if let Some(list) = param_list(rest@) {
                assert(done + (seq![param] + list) =~= done.push(param) + list);
            }
            assert(done.push(param).drop_last() =~= done);
            done = done.push(param);
        }
        params.insert(key, value);
        remaining = rest;
    }
    proof {
        assert(done + Seq::<Param>::empty() =~= done);
    }
    Some(params)
}

/// A parameter in writing: its key, an equals sign, and its value in quotes.
pub open spec fn written_param(param: Param) -> Seq<char> {
    param.0 + seq!['=', '"'] + param.1 + seq!['"']
}

/// Parameters in writing, with a comma and the white space `space` between them.
pub open spec fn written(params: Seq<Param>, space: Seq<char>) -> Seq<char>
    decreases params.len(),
{
    if params.len() == 0 {
        Seq::empty()
    } else if params.len() == 1 {
        written_param(params[0])
    } else {
        written_param(params[0]) + seq![','] + space + written(params.skip(1), space)
    }
}

/// Whether a parameter can be written: its key has no equals sign, no white space around it and
/// no comma in front, and its value has no quote.
pub open spec fn writable(param: Param) -> bool {
    &&& !param.0.contains('=')
    &&& text::trimmed(param.0) == param.0
    &&& param.0.len() > 0 ==> param.0[0] != ','
    &&& !param.1.contains('"')
}

/// Trimming the end makes no text longer.
proof fn trimmed_end_is_no_longer(s: Seq<char>)
    ensures
        text::trimmed_end(s).len() <= s.len(),
    decreases s.len(),
{
    if s.len() > 0 {
        trimmed_end_is_no_longer(s.drop_last());
    }
}

/// What a written parameter starts with.
proof fn written_start(params: Seq<Param>, space: Seq<char>)
    requires
        params.len() > 0,
        writable(params[0]),
    ensures
        written(params, space).len() > 0,
        !text::is_white_space(written(params, space)[0]),
        written(params, space)[0] != ',',
{
    let key = params[0].0;
    if key.len() > 0 {
        assert(written(params, space)[0] == key[0]);
        if text::is_white_space(key[0]) {
            trimmed_start_is_no_longer(key.skip(1));
            trimmed_end_is_no_longer(text::trimmed_start(key));
            assert(false);
        }
    } else {
        assert(written(params, space)[0] == '=');
    }
}

/// What a written parameter ends with.
proof fn written_end(params: Seq<Param>, space: Seq<char>)
    requires
        params.len() > 0,
    ensures
        written(params, space).len() > 0,
        written(params, space).last() == '"',
    decreases params.len(),
{
    if params.len() > 1 {
        written_end(params.skip(1), space);
    }
}

/// White space in front of a text without any is trimmed.
proof fn blank_start_is_trimmed(space: Seq<char>, s: Seq<char>)
    requires
        text::is_blank(space),
        s.len() > 0,
        !text::is_white_space(s[0]),
    ensures
        text::trimmed_start(space + s) == s,
    decreases space.len(),
{
    if space.len() > 0 {
        assert((space + s)[0] == space[0]);
        assert((space + s).skip(1) =~= space.skip(1) + s);
        blank_start_is_trimmed(space.skip(1), s);
    } else {
        assert(space + s =~= s);
    }
}

/// The first of some written parameters is read back.
proof fn first_param_read_back(params: Seq<Param>, space: Seq<char>)
    requires
        params.len() > 0,
        forall|i: int| 0 <= i < params.len() ==> writable(#[trigger] params[i]),
        text::is_blank(space),
    ensures
        first_param(written(params, space)) == Some((params[0], written(params.skip(1), space))),
{
    let s = written(params, space);
    let (key, value) = params[0];
    let tail = if params.len() == 1 {
        Seq::empty()
    } else {
        seq![','] + space + written(params.skip(1), space)
    };
    assert(s =~= key + seq!['=', '"'] + value + seq!['"'] + tail);
    assert forall|j: int| 0 <= j < key.len() implies s[j] != '=' by {
        assert(s[j] == key[j]);
    }
    text::first_position(s, '=', key.len() as int);
    assert(s.take(key.len() as int) =~= key);
    let after = s.skip(key.len() as int + 1);
    assert(after[0] == '"');
    let quoted = after.skip(1);
    assert(quoted =~= value + seq!['"'] + tail);
    assert forall|j: int| 0 <= j < value.len() implies quoted[j] != '"' by {
        assert(quoted[j] == value[j]);
    }
    text::first_position(quoted, '"', value.len() as int);
    assert(quoted.take(value.len() as int) =~= value);
    assert(quoted.skip(value.len() as int + 1) =~= tail);
    reveal_strlit(",");
    if params.len() == 1 {
        assert(after_quoted(tail) =~= Seq::empty());
        assert(written(params.skip(1), space) =~= Seq::empty());
    } else {
        let rest = written(params.skip(1), space);
        assert(params.skip(1)[0] == params[1]);
        written_start(params.skip(1), space);
        let spaced = space + rest;
        assert(tail.subrange(0, 1) =~= ","@);
        assert(tail.skip(1) =~= spaced);
        assert(spaced.subrange(0, 1)[0] == spaced[0]);
        assert(text::without_leading(tail, ","@) == text::without_leading(spaced, ","@));
        assert(text::without_leading(spaced, ","@) == spaced);
        blank_start_is_trimmed(space, rest);
    }
}

/// Written parameters are read back.
proof fn params_read_back(params: Seq<Param>, space: Seq<char>)
    requires
        forall|i: int| 0 <= i < params.len() ==> writable(#[trigger] params[i]),
        text::is_blank(space),
    ensures
        param_list(written(params, space)) == Some(params),
    decreases params.len(),
{
    if params.len() == 0 {
        assert(params =~= Seq::empty());
    } else {
        written_start(params, space);
        first_param_read_back(params, space);
        rest_is_shorter(written(params, space));
        assert forall|i: int| 0 <= i < params.skip(1).len() implies writable(
            #[trigger] params.skip(1)[i],
        ) by {
            assert(params.skip(1)[i] == params[i + 1]);
        }
        params_read_back(params.skip(1), space);
        assert(seq![params[0]] + params.skip(1) =~= params);
    }
}

/// A challenge for a bearer token that is written out with its values in quotes, with or without
/// white space after the commas, is read back with the same parameters.
pub proof fn challenge_read_back(params: Seq<Param>, space: Seq<char>)
    requires
        forall|i: int| 0 <= i < params.len() ==> writable(#[trigger] params[i]),
        text::is_blank(space),
    ensures
        challenge_params("Bearer "@ + written(params, space)) == Some(param_map(params)),
{
    let s = written(params, space);
    let header = "Bearer "@ + s;
    assert(header.subrange(0, "Bearer "@.len() as int) =~= "Bearer "@);
    assert(header.skip("Bearer "@.len() as int) =~= s);
    if params.len() > 0 {
        written_start(params, space);
        written_end(params, space);
    }
    assert(text::trimmed(s) == s);
    params_read_back(params, space);
}

/// The values of some parameters with one more in front: its value counts unless its key comes
/// again.
proof fn first_value_counts_unless_repeated(param: Param, params: Seq<Param>)
    ensures
        param_map(seq![param] + params) == if param_map(params).contains_key(param.0) {
            param_map(params)
        } else {
            param_map(params).insert(param.0, param.1)
        },
    decreases params.len(),
{
    let all = seq![param] + params;
    if params.len() > 0 {
        let front = params.drop_last();
        first_value_counts_unless_repeated(param, front);
        assert(all.drop_last() =~= seq![param] + front);
        assert(all.last() == params.last());
        assert(param_map(all) =~= if param_map(params).contains_key(param.0) {
            param_map(params)
        } else {
            param_map(params).insert(param.0, param.1)
        });
    } else {
        assert(all.drop_last() =~= params);
        assert(all.last() == param);
        assert(all.len() == 1);
        assert(param_map(all) =~= param_map(params).insert(param.0, param.1));
    }
}

/// The parameters of a challenge that starts with something else than white space and does not
/// end with it.
proof fn params_of_trimmed(s: Seq<char>)
    requires
        s.len() > 0 ==> !text::is_white_space(s[0]) && !text::is_white_space(s.last()),
    ensures
        challenge_params("Bearer "@ + s) == match param_list(s) {
            Some(params) => Some(param_map(params)),
            None => None,
        },
{
    let header = "Bearer "@ + s;
    assert(header.subrange(0, "Bearer "@.len() as int) =~= "Bearer "@);
    assert(header.skip("Bearer "@.len() as int) =~= s);
    let none = Seq::<char>::empty();
    text::white_space_around_is_trimmed(none, s, none);
    assert(none + s + none =~= s);
}

/// Commas at the start of a text are passed over.
proof fn commas_are_passed_over(commas: Seq<char>, s: Seq<char>)
    requires
        forall|j: int| 0 <= j < commas.len() ==> #[trigger] commas[j] == ',',
        s.len() > 0 ==> s[0] != ',',
    ensures
        text::without_leading(commas + s, ","@) == s,
    decreases commas.len(),
{
    reveal_strlit(",");
    if commas.len() > 0 {
        let rest = commas.skip(1);
        assert forall|j: int| 0 <= j < rest.len() implies #[trigger] rest[j] == ',' by {
            assert(rest[j] == commas[j + 1]);
        }
        commas_are_passed_over(rest, s);
        assert(commas + s =~= ","@ + (rest + s));
        text::leading_parts_are_removed(rest + s, ","@);
    } else {
        assert(commas + s =~= s);
        if ","@.is_prefix_of(s) {
            assert(s.subrange(0, 1)[0] == ',');
            assert(s[0] == ',');
        }
        text::leading_parts_are_removed(s, ","@);
    }
}

/// Only a header that starts with `Bearer` and a blank is a challenge for a bearer token; with
/// nothing but white space after that it has no parameters.
pub proof fn bearer_comes_first(header: Seq<char>, space: Seq<char>)
    requires
        text::is_blank(space),
    ensures
        !"Bearer "@.is_prefix_of(header) ==> challenge_params(header) is None,
        challenge_params("Bearer "@ + space) == Some(Map::<Seq<char>, Seq<char>>::empty()),
{
    let s = "Bearer "@ + space;
    let none = Seq::<char>::empty();
    assert(s.subrange(0, "Bearer "@.len() as int) =~= "Bearer "@);
    assert(s.skip("Bearer "@.len() as int) =~= space);
    text::white_space_around_is_trimmed(space, none, none);
    assert(space + none + none =~= space);
}

/// White space around the parameters of a challenge makes no difference.
pub proof fn space_around_the_parameters_is_ignored(
    front: Seq<char>,
    s: Seq<char>,
    back: Seq<char>,
)
    requires
        text::is_blank(front),
        text::is_blank(back),
        s.len() > 0 && !text::is_white_space(s[0]) && !text::is_white_space(s.last()),
    ensures
        challenge_params("Bearer "@ + (front + s + back)) == challenge_params("Bearer "@ + s),
{
    let longer = front + s + back;
    let header = "Bearer "@ + longer;
    assert(header.subrange(0, "Bearer "@.len() as int) =~= "Bearer "@);
    assert(header.skip("Bearer "@.len() as int) =~= longer);
    text::white_space_around_is_trimmed(front, s, back);
    params_of_trimmed(s);
}

/// A parameter with its value in quotes adds that value, whatever it holds but a quote, to the
/// parameters that follow, unless its key comes again there. Commas and white space stand between
/// parameters, and white space after the key does not count.
pub proof fn quoted_value_is_read(
    key: Seq<char>,
    value: Seq<char>,
    commas: Seq<char>,
    space: Seq<char>,
    rest: Seq<char>,
)
    requires
        !key.contains('='),
        key.len() > 0 ==> !text::is_white_space(key[0]),
        !value.contains('"'),
        forall|j: int| 0 <= j < commas.len() ==> #[trigger] commas[j] == ',',
        text::is_blank(space),
        rest.len() > 0 ==> !text::is_white_space(rest[0]) && !text::is_white_space(rest.last()),
        rest.len() > 0 && space.len() == 0 ==> rest[0] != ',',
        rest.len() == 0 ==> space.len() == 0,
    ensures
        challenge_params(
            "Bearer "@ + (key + seq!['=', '"'] + value + seq!['"'] + commas + space + rest),
        ) == match challenge_params("Bearer "@ + rest) {
            None => None,
            Some(params) => Some(
                if params.contains_key(text::trimmed(key)) {
                    params
                } else {
                    params.insert(text::trimmed(key), value)
                },
            ),
        },
{
    let s = key + seq!['=', '"'] + value + seq!['"'] + commas + space + rest;
    let tail = commas + (space + rest);
    assert(s =~= key + seq!['='] + (seq!['"'] + (value + seq!['"'] + tail)));
    text::text_divides_at_the_first(key, '=', seq!['"'] + (value + seq!['"'] + tail));
    assert((seq!['"'] + (value + seq!['"'] + tail)).skip(1) =~= value + seq!['"'] + tail);
    text::text_divides_at_the_first(value, '"', tail);
    assert((space + rest).len() > 0 ==> (space + rest)[0] != ',') by {
        if space.len() > 0 {
            assert((space + rest)[0] == space[0]);
        } else {
            assert(space + rest =~= rest);
        }
    }
    commas_are_passed_over(commas, space + rest);
    text::blank_start_is_trimmed(space, rest);
    assert(first_param(s) == Some(((text::trimmed(key), value), rest)));
    rest_is_shorter(s);
    assert(!text::is_white_space(s[0])) by {
        if key.len() > 0 {
            assert(s[0] == key[0]);
        } else {
            assert(s[0] == '=');
        }
    }
    assert(!text::is_white_space(s.last())) by {
        if rest.len() > 0 {
            assert(s.last() == rest.last());
        } else if commas.len() > 0 {
            assert(s.last() == commas.last());
            assert(commas.last() == commas[commas.len() - 1]);
        } else {
            assert(s.last() == '"');
        }
    }
    params_of_trimmed(s);
    params_of_trimmed(rest);
    if let Some(params) = param_list(rest) {
        first_value_counts_unless_repeated((text::trimmed(key), value), params);
    }
}

/// A parameter with its value not in quotes adds what stands before the next comma to the
/// parameters that follow, unless its key comes again there; the last one adds all that is left.
pub proof fn plain_value_is_read(
    key: Seq<char>,
    value: Seq<char>,
    space: Seq<char>,
    rest: Seq<char>,
)
    requires
        !key.contains('='),
        key.len() > 0 ==> !text::is_white_space(key[0]),
        !value.contains(','),
        value.len() > 0 ==> value[0] != '"',
        text::is_blank(space),
        rest.len() > 0 ==> !text::is_white_space(rest[0]) && !text::is_white_space(rest.last()),
        rest.len() == 0 ==> space.len() == 0,
    ensures
        (value.len() > 0 ==> !text::is_white_space(value.last())) ==> challenge_params(
            "Bearer "@ + (key + seq!['='] + value),
        ) == Some(map![text::trimmed(key) => value]),
        challenge_params("Bearer "@ + (key + seq!['='] + value + seq![','] + space + rest))
            == match challenge_params("Bearer "@ + rest) {
            None => None,
            Some(params) => Some(
                if params.contains_key(text::trimmed(key)) {
                    params
                } else {
                    params.insert(text::trimmed(key), value)
                },
            ),
        },
{
    let param = (text::trimmed(key), value);
    let last = key + seq!['='] + value;
    let s = key + seq!['='] + value + seq![','] + space + rest;
    let none = Seq::<char>::empty();
    text::text_divides_at_the_first(key, '=', value);
    text::text_divides_at_the_first(value, ',', none);
    assert(first_param(last) == Some((param, none)));
    rest_is_shorter(last);
    assert(s =~= key + seq!['='] + (value + seq![','] + (space + rest)));
    text::text_divides_at_the_first(key, '=', value + seq![','] + (space + rest));
    text::text_divides_at_the_first(value, ',', space + rest);
    let after = value + seq![','] + (space + rest);
    assert(after[0] != '"') by {
        if value.len() > 0 {
            assert(after[0] == value[0]);
        } else {
            assert(after[0] == ',');
        }
    }
    text::blank_start_is_trimmed(space, rest);
    assert(first_param(s) == Some((param, rest)));
    rest_is_shorter(s);
    assert(!text::is_white_space(s[0]) && !text::is_white_space(last[0])) by {
        if key.len() > 0 {
            assert(s[0] == key[0] && last[0] == key[0]);
        } else {
            assert(s[0] == '=' && last[0] == '=');
        }
    }
    assert(!text::is_white_space(s.last())) by {
        if rest.len() > 0 {
            assert(s.last() == rest.last());
        } else {
            assert(s.last() == ',');
        }
    }
    if value.len() > 0 ==> !text::is_white_space(value.last()) {
        assert(!text::is_white_space(last.last())) by {
            if value.len() > 0 {
                assert(last.last() == value.last());
            } else {
                assert(last.last() == '=');
            }
        }
        params_of_trimmed(last);
    }
    params_of_trimmed(s);
    params_of_trimmed(rest);
    first_value_counts_unless_repeated(param, Seq::empty());
    assert(param_list(none) == Some(Seq::<Param>::empty()));
    assert(param_list(last) == Some(seq![param] + Seq::<Param>::empty()));
    assert(param_map(seq![param] + Seq::<Param>::empty()) =~= map![text::trimmed(key) => value]);
    if let Some(params) = param_list(rest) {
        first_value_counts_unless_repeated(param, params);
    }
}

/// Something without an equals sign is no parameter, and neither is a value whose quotes are left
/// open; nothing is read from a challenge that goes on like that.
pub proof fn broken_parameter_is_refused(key: Seq<char>, value: Seq<char>)
    requires
        !key.contains('='),
        key.len() > 0 ==> !text::is_white_space(key[0]),
        !value.contains('"'),
        value.len() > 0 ==> !text::is_white_space(value.last()),
    ensures
        key.len() > 0 && !text::is_white_space(key.last()) ==> challenge_params("Bearer "@ + key)
            is None,
        challenge_params("Bearer "@ + (key + seq!['=', '"'] + value)) is None,
{
    let s = key + seq!['=', '"'] + value;
    let none = Seq::<char>::empty();
    assert(s =~= key + seq!['='] + (seq!['"'] + value));
    text::text_divides_at_the_first(key, '=', seq!['"'] + value);
    assert((seq!['"'] + value).skip(1) =~= value);
    text::text_divides_at_the_first(value, '"', none);
    assert(!text::is_white_space(s[0])) by {
        if key.len() > 0 {
            assert(s[0] == key[0]);
        } else {
            assert(s[0] == '=');
        }
    }
    assert(!text::is_white_space(s.last())) by {
        if value.len() > 0 {
            assert(s.last() == value.last());
        } else {
            assert(s.last() == '"');
        }
    }
    params_of_trimmed(s);
    if key.len() > 0 && !text::is_white_space(key.last()) {
        params_of_trimmed(key);
    }
}

} // verus!
