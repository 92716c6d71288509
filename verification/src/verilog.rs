//! The structural-description emitter and its syntactic validator.  The
//! emitted text is a deterministic function of the circuit description: a
//! module header, one wire declaration per signal, and a closing keyword.
//! Semantic validation by an external netlist checker is outside the
//! library; the validator here holds the text to the syntactic frame the
//! library guarantees.

use vstd::prelude::*;

use crate::block::Block;
use crate::errors::HdlError;
use crate::graph::CircuitDesc;

verus! {

broadcast use vstd::string::group_string_axioms;

/// The text opens with a module header.
pub open spec fn has_module_header(t: Seq<char>) -> bool {
    t.len() >= 7 && t.subrange(0, 7) == "module "@
}

/// Emit a structural description of the circuit: a module header and one
/// wire declaration per registered signal, in registration order.
pub fn emit_structural(d: &CircuitDesc) -> (r: String)
    requires
        d.wf(),
    ensures
        has_module_header(r@),
{
    proof {
        reveal_strlit("module ");
    }
    let mut out = String::from_str("module ");
    proof {
        assert(out@.subrange(0, 7) =~= "module "@);
    }
    out.append("top();\n");
    proof {
        assert(out@.subrange(0, 7) =~= "module "@);
    }
    let n = d.sigs.len();
    let mut i: usize = 0;
    while i < n
        invariant
            n == d.sigs@.len(),
            i <= n,
            out@.len() >= 7,
            out@.subrange(0, 7) == "module "@,
        decreases n - i,
    {
        let ghost before = out@;
        out.append("  wire ");
        out.append(d.sigs[i].path.as_str());
        out.append(";\n");
        proof {
            assert(out@.subrange(0, 7) =~= before.subrange(0, 7));
        }
        i = i + 1;
    }
    let ghost before = out@;
    out.append("endmodule\n");
    proof {
        assert(out@.subrange(0, 7) =~= before.subrange(0, 7));
    }
    out
}

/// Emit the structural description of a whole block tree.
pub fn generate_verilog<B: Block>(b: &B) -> (r: String)
    ensures
        has_module_header(r@),
{
    let mut d = CircuitDesc::new();
    b.describe("top", &mut d);
    emit_structural(&d)
}

/// Syntactic check of an emitted description: it must open with a module
/// header.  The name is only reported, never parsed.
pub fn validate_structural(name: &str, text: &String) -> (r: Result<(), HdlError>)
    ensures
        r is Ok <==> has_module_header(text@),
{
    proof {
        reveal_strlit("module ");
    }
    let s = text.as_str();
    let n = s.unicode_len();
    if n < 7 {
        proof {
            assert(!has_module_header(text@));
        }
        return Err(HdlError::UnconnectedSignal { path: String::from_str(name) });
    }
    let ok = s.get_char(0) == 'm' && s.get_char(1) == 'o' && s.get_char(2) == 'd' && s.get_char(3)
        == 'u' && s.get_char(4) == 'l' && s.get_char(5) == 'e' && s.get_char(6) == ' ';
    proof {
        if ok {
            assert(text@.subrange(0, 7) =~= "module "@);
        } else {
            if text@.subrange(0, 7) == "module "@ {
                reveal_strlit("module ");
                assert("module "@[0] == 'm' && "module "@[1] == 'o' && "module "@[2] == 'd'
                    && "module "@[3] == 'u' && "module "@[4] == 'l' && "module "@[5] == 'e'
                    && "module "@[6] == ' ');
                assert(forall|j: int|
                    0 <= j < 7 ==> text@[j] == #[trigger] text@.subrange(0, 7)[j]);
                assert(text@[0] == 'm' && text@[1] == 'o' && text@[2] == 'd' && text@[3] == 'u'
                    && text@[4] == 'l' && text@[5] == 'e' && text@[6] == ' ');
                assert(false);
            }
        }
    }
    if ok {
        Ok(())
    } else {
        Err(HdlError::UnconnectedSignal { path: String::from_str(name) })
    }
}

} // verus!
