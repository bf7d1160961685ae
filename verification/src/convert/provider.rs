//! AI providers: rows and protocol messages.
use crate::entity::provider::Model as EntityProvider;
use crate::proto::ProtoProvider;
use vstd::prelude::*;

verus! {

/// The message for a provider row: the same four fields.
pub open spec fn spec_provider_to_proto(e: EntityProvider) -> ProtoProvider {
    ProtoProvider {
        name: e.name,
        display_name: e.display_name,
        api_key: e.api_key,
        api_endpoint: e.api_endpoint,
    }
}

/// The row for a provider message: the same four fields.
pub open spec fn spec_provider_to_entity(p: ProtoProvider) -> EntityProvider {
    EntityProvider {
        name: p.name,
        display_name: p.display_name,
        api_key: p.api_key,
        api_endpoint: p.api_endpoint,
    }
}

impl From<EntityProvider> for ProtoProvider {
    fn from(entity: EntityProvider) -> ProtoProvider {
        ProtoProvider {
            name: entity.name,
            display_name: entity.display_name,
            api_key: entity.api_key,
            api_endpoint: entity.api_endpoint,
        }
    }
}

impl vstd::std_specs::convert::FromSpecImpl<EntityProvider> for ProtoProvider {
    open spec fn obeys_from_spec() -> bool {
        true
    }

    open spec fn from_spec(v: EntityProvider) -> ProtoProvider {
        spec_provider_to_proto(v)
    }
}

impl From<ProtoProvider> for EntityProvider {
    fn from(proto: ProtoProvider) -> EntityProvider {
        EntityProvider {
            name: proto.name,
            display_name: proto.display_name,
            api_key: proto.api_key,
            api_endpoint: proto.api_endpoint,
        }
    }
}

impl vstd::std_specs::convert::FromSpecImpl<ProtoProvider> for EntityProvider {
    open spec fn obeys_from_spec() -> bool {
        true
    }

    open spec fn from_spec(v: ProtoProvider) -> EntityProvider {
        spec_provider_to_entity(v)
    }
}

impl<'a> From<&'a EntityProvider> for ProtoProvider {
    fn from(entity: &'a EntityProvider) -> ProtoProvider {
        ProtoProvider {
            name: entity.name.clone(),
            display_name: entity.display_name.clone(),
            api_key: entity.api_key.clone(),
            api_endpoint: entity.api_endpoint.clone(),
        }
    }
}

impl<'a> vstd::std_specs::convert::FromSpecImpl<&'a EntityProvider> for ProtoProvider {
    open spec fn obeys_from_spec() -> bool {
        true
    }

    open spec fn from_spec(v: &'a EntityProvider) -> ProtoProvider {
        spec_provider_to_proto(*v)
    }
}

impl<'a> From<&'a ProtoProvider> for EntityProvider {
    fn from(proto: &'a ProtoProvider) -> EntityProvider {
        EntityProvider {
            name: proto.name.clone(),
            display_name: proto.display_name.clone(),
            api_key: proto.api_key.clone(),
            api_endpoint: proto.api_endpoint.clone(),
        }
    }
}

impl<'a> vstd::std_specs::convert::FromSpecImpl<&'a ProtoProvider> for EntityProvider {
    open spec fn obeys_from_spec() -> bool {
        true
    }

    open spec fn from_spec(v: &'a ProtoProvider) -> EntityProvider {
        spec_provider_to_entity(*v)
    }
}

/// Converts a provider row into its message.
pub fn provider_entity_to_proto(entity: &EntityProvider) -> (r: ProtoProvider)
    ensures
        r == spec_provider_to_proto(*entity),
{
    ProtoProvider::from(entity)
}

/// Converts a provider message into its row.
pub fn provider_proto_to_entity(proto: &ProtoProvider) -> (r: EntityProvider)
    ensures
        r == spec_provider_to_entity(*proto),
{
    EntityProvider::from(proto)
}

/// Converts provider rows into their messages, in order.
pub fn provider_entities_to_proto(entities: &[EntityProvider]) -> (r: Vec<ProtoProvider>)
    ensures
        r@ == entities@.map_values(|e: EntityProvider| spec_provider_to_proto(e)),
{
    let mut out: Vec<ProtoProvider> = Vec::new();
    let mut i: usize = 0;
    while i < entities.len()
        invariant
            i <= entities@.len(),
            out@ == entities@.take(i as int).map_values(|e: EntityProvider| spec_provider_to_proto(e)),
        decreases entities@.len() - i,
    {
        out.push(provider_entity_to_proto(&entities[i]));
        i = i + 1;
        proof {
            assert(out@ =~= entities@.take(i as int).map_values(
                |e: EntityProvider| spec_provider_to_proto(e),
            ));
        }
    }
    proof {
        assert(entities@.take(entities@.len() as int) =~= entities@);
    }
    out
}

/// A provider row survives the trip through its message, and a message the trip
/// through its row.
pub proof fn lemma_provider_roundtrip(e: EntityProvider, p: ProtoProvider)
    ensures
        spec_provider_to_entity(spec_provider_to_proto(e)) == e,
        spec_provider_to_proto(spec_provider_to_entity(p)) == p,
{
}

} // verus!
