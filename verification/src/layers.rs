use vstd::prelude::*;

verus! {

/// Collision layer assignments.
/// Marbles are in the `Marble` layer; snare, chute and arm use `Default`
/// (they collide with everything).
#[derive(Clone, Copy, Debug, PartialEq, Eq, Structural)]
pub enum GameLayer {
    Default,
    Marble,
}

impl core::default::Default for GameLayer {
    fn default() -> (layer: Self)
        ensures
            layer == GameLayer::Default,
    {
        GameLayer::Default
    }
}

/// The collision layers of a marble: it belongs to the `Marble` layer and
/// collides with the `Default` layer, and with other marbles only when
/// marble-marble collisions are on.
pub fn marble_layers(collide: bool) -> (layers: (GameLayer, Vec<GameLayer>))
    ensures
        layers.0 == GameLayer::Marble,
        collide ==> layers.1@ == seq![GameLayer::Default, GameLayer::Marble],
        !collide ==> layers.1@ == seq![GameLayer::Default],
{
    let mut filters: Vec<GameLayer> = Vec::new();
    filters.push(GameLayer::Default);
    if collide {
        filters.push(GameLayer::Marble);
    }
    (GameLayer::Marble, filters)
}

} // verus!
