//! Settings shared across the application that the library itself reads.
use vstd::prelude::*;
use crate::tags::strings_view;

verus! {

/// OpenTelemetry exporter settings.
#[derive(Debug, Clone)]
pub struct OtelConfig {
    pub endpoint: Option<String>,
    pub service_name: String,
    pub disable_traces: bool,
    pub disable_logs: bool,
}

/// Structured logging settings.
#[derive(Debug, Clone)]
pub struct LogConfig {
    pub level: String,
}

/// `origins` without the empty entries, in order.
pub open spec fn non_empty(origins: Seq<Seq<char>>) -> Seq<Seq<char>> {
    origins.filter(|o: Seq<char>| o.len() > 0)
}

/// Drops empty entries from a list of allowed CORS origins.
pub fn non_empty_origins(origins: Vec<String>) -> (r: Vec<String>)
    ensures
        strings_view(r@) == non_empty(strings_view(origins@)),
{
    let ghost ov = strings_view(origins@);
    let mut out: Vec<String> = Vec::new();
    let mut i: usize = 0;
    assert(ov.subrange(0, 0) =~= Seq::<Seq<char>>::empty());
    proof {
        reveal(Seq::filter);
    }
    assert(strings_view(out@) =~= non_empty(ov.subrange(0, 0)));
    while i < origins.len()
        invariant
            i <= origins.len(),
            ov == strings_view(origins@),
            strings_view(out@) == non_empty(ov.subrange(0, i as int)),
        decreases origins.len() - i,
    {
        let o = &origins[i];
        proof {
            reveal(Seq::filter);
        }
        assert(ov.subrange(0, i + 1).drop_last() =~= ov.subrange(0, i as int));
        assert(ov.subrange(0, i + 1).last() == o@);
        if !o.as_str().is_empty() {
            let ghost before = out@;
            out.push(o.clone());
            assert(strings_view(out@) =~= strings_view(before).push(o@));
        }
        i += 1;
    }
    assert(ov.subrange(0, origins.len() as int) =~= ov);
    out
}

} // verus!
