//! Which content types an upload may have.

use crate::request::{
    before_parameters, blank, header_byte, header_text, is_wasm_content_type, lower_case,
    lower_cased, media_type, wasm_content_type, without_leading_blanks, without_trailing_blanks,
};
use vstd::prelude::*;
use vstd::utf8::*;

verus! {

/// The bytes of the one media type of an upload.
pub open spec fn wasm_name() -> Seq<u8> {
    encode_utf8("application/wasm"@)
}

/// The two bytes are the same, or the same letter in either case.
pub open spec fn same_letter(byte: u8, lower: u8) -> bool {
    byte == lower || (97 <= lower <= 122 && byte + 32 == lower)
}

/// The name of the media type stands at `at` of `value`, in any case; blanks only stand before it,
/// and blanks only between it and `end`, where the value ends or its parameters begin.
pub open spec fn wasm_stands_at(value: Seq<u8>, at: int, end: int) -> bool {
    &&& 0 <= at
    &&& at + 16 <= end <= value.len()
    &&& forall|i: int| 0 <= i < at ==> (#[trigger] value[i] == 32 || value[i] == 9)
    &&& forall|i: int| 0 <= i < 16 ==> same_letter(value[at + i], #[trigger] wasm_name()[i])
    &&& forall|i: int| at + 16 <= i < end ==> (#[trigger] value[i] == 32 || value[i] == 9)
    &&& end == value.len() || value[end] == 59
}

proof fn lemma_wasm_name()
    ensures
        wasm_name().len() == 16,
        wasm_name()[0] == 97,
        wasm_name()[15] == 109,
        forall|i: int|
            0 <= i < 16 ==> (97 <= #[trigger] wasm_name()[i] <= 122 || wasm_name()[i] == 47),
{
    reveal_strlit("application/wasm");
    is_ascii_chars_encode_utf8("application/wasm"@);
}

proof fn lemma_parameters(value: Seq<u8>) -> (end: int)
    ensures
        0 <= end <= value.len(),
        before_parameters(value) == value.take(end),
        forall|i: int| 0 <= i < end ==> #[trigger] value[i] != 59,
        end == value.len() || value[end] == 59,
    decreases value.len(),
{
    if value.len() == 0 || value[0] == 59 {
        assert(before_parameters(value) =~= value.take(0));
        0
    } else {
        let rest = value.drop_first();
        let end = lemma_parameters(rest);
        assert(before_parameters(value) =~= value.take(end + 1));
        assert forall|i: int| 0 <= i < end + 1 implies #[trigger] value[i] != 59 by {
            if i > 0 {
                assert(rest[i - 1] != 59);
            }
        }
        end + 1
    }
}

proof fn lemma_leading(value: Seq<u8>) -> (start: int)
    ensures
        0 <= start <= value.len(),
        without_leading_blanks(value) == value.skip(start),
        forall|i: int| 0 <= i < start ==> blank(#[trigger] value[i]),
        start == value.len() || !blank(value[start]),
    decreases value.len(),
{
    if value.len() != 0 && blank(value[0]) {
        let rest = value.drop_first();
        let start = lemma_leading(rest);
        assert(rest.skip(start) =~= value.skip(start + 1));
        assert forall|i: int| 0 <= i < start + 1 implies blank(#[trigger] value[i]) by {
            if i > 0 {
                assert(blank(rest[i - 1]));
            }
        }
        start + 1
    } else {
        assert(value.skip(0) =~= value);
        0
    }
}

proof fn lemma_trailing(value: Seq<u8>) -> (end: int)
    ensures
        0 <= end <= value.len(),
        without_trailing_blanks(value) == value.take(end),
        forall|i: int| end <= i < value.len() ==> blank(#[trigger] value[i]),
        end == 0 || !blank(value[end - 1]),
    decreases value.len(),
{
    if value.len() != 0 && blank(value.last()) {
        let rest = value.drop_last();
        let end = lemma_trailing(rest);
        assert(rest.take(end) =~= value.take(end));
        assert forall|i: int| end <= i < value.len() implies blank(#[trigger] value[i]) by {
            if i < rest.len() {
                assert(blank(rest[i]));
            }
        }
        end
    } else {
        assert(value.take(value.len() as int) =~= value);
        value.len() as int
    }
}

/// An upload is taken for a module exactly where its content type is printable ASCII and names, in
/// any case and with blanks around it, `application/wasm`, whatever parameters follow.
pub proof fn law_upload_names_its_media_type(value: &[u8], accepted: bool)
    requires
        call_ensures(is_wasm_content_type, (Some(value),), accepted),
    ensures
        accepted <==> (forall|i: int|
            0 <= i < value@.len() ==> (#[trigger] value@[i] == 9 || 32 <= value@[i] <= 126))
            && exists|at: int, end: int| wasm_stands_at(value@, at, end),
{
    let v = value@;
    assert(header_text(v) <==> forall|i: int|
        0 <= i < v.len() ==> (#[trigger] v[i] == 9 || 32 <= v[i] <= 126)) by {
        if header_text(v) {
            assert forall|i: int| 0 <= i < v.len() implies (#[trigger] v[i] == 9 || 32 <= v[i]
                <= 126) by {
                assert(header_byte(v[i]));
            }
        }
        if forall|i: int| 0 <= i < v.len() ==> (#[trigger] v[i] == 9 || 32 <= v[i] <= 126) {
            assert forall|i: int| 0 <= i < v.len() implies header_byte(#[trigger] v[i]) by {}
        }
    }
    assert(accepted == wasm_content_type(v));
    lemma_wasm_name();
    let end = lemma_parameters(v);
    let part = v.take(end);
    let start = lemma_leading(part);
    let unled = part.skip(start);
    let count = lemma_trailing(unled);
    let name = unled.take(count);
    assert(media_type(v) == name);
    assert forall|i: int| 0 <= i < count implies #[trigger] name[i] == v[start + i] by {}
    if lower_cased(name) == wasm_name() {
        assert(count == 16);
        assert forall|i: int| 0 <= i < 16 implies same_letter(
            v[start + i],
            #[trigger] wasm_name()[i],
        ) by {
            assert(lower_cased(name)[i] == lower_case(name[i]));
        }
        assert forall|i: int| 0 <= i < start implies (#[trigger] v[i] == 32 || v[i] == 9) by {
            assert(blank(part[i]));
        }
        assert forall|i: int| start + 16 <= i < end implies (#[trigger] v[i] == 32 || v[i] == 9) by {
            assert(blank(unled[i - start]));
        }
        assert(wasm_stands_at(v, start, end));
    }
    if exists|at: int, stop: int| wasm_stands_at(v, at, stop) {
        let (at, stop) = choose|at: int, stop: int| wasm_stands_at(v, at, stop);
        lemma_stands_where_found(v, at, stop, start, end, count);
        assert forall|i: int| 0 <= i < 16 implies lower_cased(name)[i] == wasm_name()[i] by {
            assert(same_letter(v[at + i], wasm_name()[i]));
            assert(name[i] == v[start + i]);
        }
        assert(lower_cased(name) =~= wasm_name());
    }
}

proof fn lemma_stands_where_found(
    v: Seq<u8>,
    at: int,
    stop: int,
    start: int,
    end: int,
    count: int,
)
    requires
        wasm_stands_at(v, at, stop),
        0 <= end <= v.len(),
        forall|i: int| 0 <= i < end ==> #[trigger] v[i] != 59,
        end == v.len() || v[end] == 59,
        0 <= start <= end,
        forall|i: int| 0 <= i < start ==> blank(#[trigger] v.take(end)[i]),
        start == end || !blank(v.take(end)[start]),
        0 <= count <= end - start,
        forall|i: int|
            count <= i < end - start ==> blank(#[trigger] v.take(end).skip(start)[i]),
        count == 0 || !blank(v.take(end).skip(start)[count - 1]),
    ensures
        stop == end,
        at == start,
        count == 16,
{
    lemma_wasm_name();
    assert forall|i: int| 0 <= i < stop implies #[trigger] v[i] != 59 by {
        if at <= i < at + 16 {
            assert(same_letter(v[at + (i - at)], wasm_name()[i - at]));
        }
    }
    assert(stop == end);
    assert(same_letter(v[at + 0], wasm_name()[0]));
    assert(same_letter(v[at + 15], wasm_name()[15]));
    assert(!blank(v[at]) && !blank(v[at + 15]));
    if start > at {
        assert(blank(v.take(end)[at]));
    }
    if start < at {
        assert(v.take(end)[start] == v[start]);
    }
    if count < 16 {
        assert(blank(v.take(end).skip(start)[15]));
    }
    if count > 16 {
        assert(v.take(end).skip(start)[count - 1] == v[start + count - 1]);
    }
}

/// An upload without a content type is not taken for a module.
pub proof fn law_untyped_uploads_are_refused(accepted: bool)
    requires
        call_ensures(is_wasm_content_type, (None::<&[u8]>,), accepted),
    ensures
        !accepted,
{
}

} // verus!
