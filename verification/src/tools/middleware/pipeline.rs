//! Which onion layers a configured tool pipeline stacks, outermost first.
use vstd::prelude::*;
use crate::types::config::MiddlewareConfig;

verus! {

/// One layer of the onion pipeline, named by the middleware it runs.
#[derive(Debug, Clone, Copy, PartialEq, Eq, Structural)]
pub enum Layer {
    PermissionGuard,
    SecurityGuard,
    ResourceGuard,
    Transaction,
    OutputPostProcessor,
}

/// The layer, or nothing, that a toggle contributes.
pub open spec fn optional(on: bool, layer: Layer) -> Seq<Layer> {
    if on { seq![layer] } else { Seq::empty() }
}

/// The stack a configuration yields: the permission gate always first, then
/// each enabled layer in the fixed order security, resource, transaction,
/// output post-processing.
pub open spec fn layer_plan(cfg: MiddlewareConfig) -> Seq<Layer> {
    seq![Layer::PermissionGuard]
        + optional(cfg.enable_security_guard, Layer::SecurityGuard)
        + optional(cfg.enable_resource_guard, Layer::ResourceGuard)
        + optional(cfg.enable_transaction, Layer::Transaction)
        + optional(cfg.enable_output_post_processor, Layer::OutputPostProcessor)
}

/// Rank of a layer in the canonical order.
pub open spec fn rank(layer: Layer) -> int {
    match layer {
        Layer::PermissionGuard => 0,
        Layer::SecurityGuard => 1,
        Layer::ResourceGuard => 2,
        Layer::Transaction => 3,
        Layer::OutputPostProcessor => 4,
    }
}

fn push_if(v: &mut Vec<Layer>, on: bool, layer: Layer)
    ensures
        final(v)@ == old(v)@ + optional(on, layer),
{
    if on {
        v.push(layer);
    }
    proof {
        if !on {
            assert(old(v)@ + optional(on, layer) =~= old(v)@);
        }
    }
}

/// The middleware stack the configured pipeline assembles, outermost first.
pub fn configured_layers(cfg: &MiddlewareConfig) -> (v: Vec<Layer>)
    ensures
        v@ == layer_plan(*cfg),
{
    let mut v: Vec<Layer> = Vec::new();
    v.push(Layer::PermissionGuard);
    push_if(&mut v, cfg.enable_security_guard, Layer::SecurityGuard);
    push_if(&mut v, cfg.enable_resource_guard, Layer::ResourceGuard);
    push_if(&mut v, cfg.enable_transaction, Layer::Transaction);
    push_if(&mut v, cfg.enable_output_post_processor, Layer::OutputPostProcessor);
    v
}

/// Whatever the configuration, the permission gate is the outermost layer
/// (a denied capability never reaches the workspace), no layer appears
/// twice, and the layers keep the canonical order.
pub proof fn lemma_plan_gate_outermost_and_ordered(cfg: MiddlewareConfig)
    ensures
        layer_plan(cfg).len() >= 1,
        layer_plan(cfg)[0] == Layer::PermissionGuard,
        forall|i: int, j: int|
            0 <= i < j < layer_plan(cfg).len() ==> rank(#[trigger] layer_plan(cfg)[i]) < rank(
                #[trigger] layer_plan(cfg)[j],
            ),
{
    let p = layer_plan(cfg);
    let a = seq![Layer::PermissionGuard];
    let b = a + optional(cfg.enable_security_guard, Layer::SecurityGuard);
    let c = b + optional(cfg.enable_resource_guard, Layer::ResourceGuard);
    let d = c + optional(cfg.enable_transaction, Layer::Transaction);
    assert(p == d + optional(cfg.enable_output_post_processor, Layer::OutputPostProcessor));
    assert(forall|i: int| 0 <= i < b.len() ==> rank(#[trigger] b[i]) <= 1 && rank(b[i]) == i);
    assert(forall|i: int, j: int| 0 <= i < j < c.len() ==> rank(#[trigger] c[i]) < rank(#[trigger] c[j]) && rank(c[j]) <= 2);
    assert(forall|i: int, j: int| 0 <= i < j < d.len() ==> rank(#[trigger] d[i]) < rank(#[trigger] d[j]) && rank(d[j]) <= 3);
}

} // verus!
