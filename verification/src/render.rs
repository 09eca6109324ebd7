//! The markup of a ball: an absolutely positioned square box, rounded to a
//! disc, whose corner is the centre less the radius and whose side is twice
//! the radius.

use crate::ball::{Ball, BallModel};
use crate::decimal::decimal_text;
use crate::fixed::{difference, product, Fixed, SCALE};
use vstd::prelude::*;
use vstd::string::StringExecFns;

verus! {

/// The markup of one ball painted in `color`.
pub open spec fn ball_markup(ball: BallModel, color: Seq<char>) -> Seq<char> {
    "<div class='ball' style='position:absolute;top:"@ + decimal_text(
        difference(ball.y, ball.radius),
    ) + "px;left:"@ + decimal_text(difference(ball.x, ball.radius)) + "px;background:"@ + color
        + ";width:"@ + decimal_text(product(ball.radius, 2 * SCALE)) + "px;height:"@
        + decimal_text(product(ball.radius, 2 * SCALE)) + "px;border-radius:"@ + decimal_text(
        ball.radius,
    ) + "px'></div>"@
}

/// The markup of the balls of a collection, one after the other in their
/// order.
pub open spec fn collection_markup(balls: Seq<BallModel>, color: Seq<char>) -> Seq<char>
    decreases balls.len(),
{
    if balls.len() == 0 {
        Seq::<char>::empty()
    } else {
        collection_markup(balls.drop_last(), color) + ball_markup(balls.last(), color)
    }
}

/// The markup of `ball` painted in `color`.
pub fn draw_wasm_ball_to_html(ball: &Ball, color: &str) -> (markup: String)
    ensures
        markup@ == ball_markup(ball@, color@),
{
    let side = ball.radius.mul(Fixed::from_int(2));
    let mut markup = String::new();
    markup.append("<div class='ball' style='position:absolute;top:");
    markup.append(ball.y.sub(ball.radius).to_text().as_str());
    markup.append("px;left:");
    markup.append(ball.x.sub(ball.radius).to_text().as_str());
    markup.append("px;background:");
    markup.append(color);
    markup.append(";width:");
    markup.append(side.to_text().as_str());
    markup.append("px;height:");
    markup.append(side.to_text().as_str());
    markup.append("px;border-radius:");
    markup.append(ball.radius.to_text().as_str());
    markup.append("px'></div>");
    assert(markup@ =~= ball_markup(ball@, color@));
    markup
}

} // verus!
