//! What an order costs.
//!
//! A garment line costs its unit price plus the unit prices of its
//! decoration services, times its quantity. An impression costs its price.
//! The subtotal of an order is the sum over its garment lines and its
//! impressions; the total adds the tax, a rate in hundredths of a percent
//! applied to the subtotal and rounded
//! down to a whole unit, and takes the discount off.

use crate::database::{Database, DatabaseView};
use crate::models::{Clothes, ClothingService, Impression};
use crate::table::{children_of, select_children, Record};
use vstd::prelude::*;

verus! {

/// The amount can be stored.
pub open spec fn fits(amount: int) -> bool {
    i64::MIN <= amount <= i64::MAX
}

/// The sum of the unit prices of `services`.
pub open spec fn services_total(services: Seq<ClothingService>) -> int
    decreases services.len(),
{
    if services.len() == 0 {
        0
    } else {
        services_total(services.drop_last()) + services.last().unit_price
    }
}

/// The price of a garment line from the price of a piece, the sum of its
/// service prices, and the number of pieces.
pub open spec fn line_price(unit_price: int, services: int, quantity: int) -> int {
    (unit_price + services) * quantity
}

/// The price of the garment line `line` with those of `services` that
/// belong to it.
pub open spec fn clothes_price(services: Seq<ClothingService>, line: Clothes) -> int {
    line_price(
        line.unit_price as int,
        services_total(children_of(services, line.key())),
        line.total_quantity as int,
    )
}

/// The sum of the prices of the garment lines `lines`.
pub open spec fn clothes_total(services: Seq<ClothingService>, lines: Seq<Clothes>) -> int
    decreases lines.len(),
{
    if lines.len() == 0 {
        0
    } else {
        clothes_total(services, lines.drop_last()) + clothes_price(services, lines.last())
    }
}

/// The price of every line of `lines` can be stored.
pub open spec fn lines_fit(services: Seq<ClothingService>, lines: Seq<Clothes>) -> bool {
    forall|i: int| 0 <= i < lines.len() ==> fits(clothes_price(services, #[trigger] lines[i]))
}

/// The sum of the prices of `impressions`.
pub open spec fn impressions_total(impressions: Seq<Impression>) -> int
    decreases impressions.len(),
{
    if impressions.len() == 0 {
        0
    } else {
        impressions_total(impressions.drop_last()) + impressions.last().price
    }
}

/// The sum of the prices of the garment lines of the order `order_id`.
pub open spec fn order_clothes_total(db: DatabaseView, order_id: Seq<char>) -> int {
    clothes_total(db.clothing_services, children_of(db.clothes, order_id))
}

/// The sum of the prices of the impressions of the order `order_id`.
pub open spec fn order_impressions_total(db: DatabaseView, order_id: Seq<char>) -> int {
    impressions_total(children_of(db.impressions, order_id))
}

/// The subtotal of the order `order_id`: what its current garment lines
/// and impressions cost.
pub open spec fn order_subtotal(db: DatabaseView, order_id: Seq<char>) -> int {
    order_clothes_total(db, order_id) + order_impressions_total(db, order_id)
}

/// The tax on `subtotal` at the rate `iva`, which is in hundredths of a
/// percent, rounded down: at a rate of 1600, which is 16 percent, the tax on
/// 6500 is 1040.
pub open spec fn tax(subtotal: int, iva: int) -> int {
    subtotal * iva / 10000
}

/// The total of an order: the subtotal, plus tax, minus the discount.
pub open spec fn order_total(subtotal: int, iva: int, discount: int) -> int {
    subtotal + tax(subtotal, iva) - discount
}

/// Every amount that is added up for the order `order_id` can be stored:
/// the price of each garment line, the sum over the garment lines, the sum
/// over the impressions, and the subtotal.
pub open spec fn subtotal_fits(db: DatabaseView, order_id: Seq<char>) -> bool {
    &&& lines_fit(db.clothing_services, children_of(db.clothes, order_id))
    &&& fits(order_clothes_total(db, order_id))
    &&& fits(order_impressions_total(db, order_id))
    &&& fits(order_subtotal(db, order_id))
}

/// What remains of `debt` after a payment of `amount`: never less than
/// nothing.
pub open spec fn debt_after(debt: int, amount: int) -> int {
    if debt - amount < 0 {
        0
    } else {
        debt - amount
    }
}

/// The sum of service prices is bounded by their number.
proof fn lemma_services_total_bound(services: Seq<ClothingService>)
    ensures
        -0x8000_0000_0000_0000 * services.len() <= services_total(services)
            <= 0x7fff_ffff_ffff_ffff * services.len(),
    decreases services.len(),
{
    if services.len() > 0 {
        lemma_services_total_bound(services.drop_last());
    }
}

/// The sum of impression prices is bounded by their number.
proof fn lemma_impressions_total_bound(impressions: Seq<Impression>)
    ensures
        -0x8000_0000_0000_0000 * impressions.len() <= impressions_total(impressions)
            <= 0x7fff_ffff_ffff_ffff * impressions.len(),
    decreases impressions.len(),
{
    if impressions.len() > 0 {
        lemma_impressions_total_bound(impressions.drop_last());
    }
}

/// The sum of line prices that all fit is bounded by their number.
proof fn lemma_clothes_total_bound(services: Seq<ClothingService>, lines: Seq<Clothes>)
    requires
        lines_fit(services, lines),
    ensures
        -0x8000_0000_0000_0000 * lines.len() <= clothes_total(services, lines),
        clothes_total(services, lines) <= 0x7fff_ffff_ffff_ffff * lines.len(),
    decreases lines.len(),
{
    if lines.len() > 0 {
        let front = lines.drop_last();
        assert forall|i: int| 0 <= i < front.len() implies fits(
            clothes_price(services, #[trigger] front[i]),
        ) by {
            assert(front[i] == lines[i]);
        }
        lemma_clothes_total_bound(services, front);
        assert(fits(clothes_price(services, lines[lines.len() - 1])));
    }
}

/// The quotient of `a` by 10000, rounded down.
fn ten_thousandth(a: i128) -> (q: i128)
    requires
        a > i128::MIN,
    ensures
        q == a as int / 10000,
{
    if a >= 0 {
        a / 10000
    } else {
        let n: i128 = -a - 1;
        let q: i128 = n / 10000;
        proof {
            let m = n as int % 10000;
            vstd::arithmetic::div_mod::lemma_fundamental_div_mod(n as int, 10000);
            vstd::arithmetic::div_mod::lemma_fundamental_div_mod_converse(
                a as int,
                10000,
                -(q as int) - 1,
                9999 - m,
            );
        }
        -q - 1
    }
}

/// The sum of the unit prices of `services`.
pub fn sum_service_prices(services: &Vec<ClothingService>) -> (sum: i128)
    ensures
        sum == services_total(services@),
{
    let mut sum: i128 = 0;
    let mut i: usize = 0;
    while i < services.len()
        invariant
            i <= services.len(),
            sum == services_total(services@.take(i as int)),
        decreases services.len() - i,
    {
        proof {
            lemma_services_total_bound(services@.take(i as int));
            assert(services@.take(i + 1).drop_last() =~= services@.take(i as int));
        }
        sum = sum + services[i].unit_price as i128;
        i += 1;
    }
    proof {
        assert(services@.take(services.len() as int) =~= services@);
    }
    sum
}

/// The price of a garment line, where it can be stored.
pub(crate) fn price_line(unit_price: i64, services: i128, quantity: i32) -> (price: Option<i64>)
    requires
        -0x8000_0000_0000_0000 * usize::MAX <= services <= 0x7fff_ffff_ffff_ffff * usize::MAX,
    ensures
        price == if fits(line_price(unit_price as int, services as int, quantity as int)) {
            Some(line_price(unit_price as int, services as int, quantity as int) as i64)
        } else {
            None
        },
{
    if quantity == 0 {
        return Some(0);
    }
    let piece: i128 = unit_price as i128 + services;
    let q: i128 = quantity as i128;
    if piece > 0x1_0000_0000_0000_0000 || piece < -0x1_0000_0000_0000_0000 {
        proof {
            assert(!fits(piece * q)) by (nonlinear_arith)
                requires
                    q != 0,
                    piece > 0x1_0000_0000_0000_0000 || piece < -0x1_0000_0000_0000_0000,
            ;
        }
        return None;
    }
    proof {
        assert(-0x8000_0000_0000_0000_0000_0000 <= piece * q <= 0x8000_0000_0000_0000_0000_0000)
            by (nonlinear_arith)
            requires
                -0x1_0000_0000_0000_0000 <= piece <= 0x1_0000_0000_0000_0000,
                -0x8000_0000 <= q <= 0x8000_0000,
        ;
    }
    let price: i128 = piece * q;
    if price < i64::MIN as i128 || price > i64::MAX as i128 {
        None
    } else {
        Some(price as i64)
    }
}

/// The sum of the prices of `impressions`, where it can be stored.
pub fn sum_impression_prices(impressions: &Vec<Impression>) -> (sum: Option<i64>)
    ensures
        sum == if fits(impressions_total(impressions@)) {
            Some(impressions_total(impressions@) as i64)
        } else {
            None
        },
{
    let mut sum: i128 = 0;
    let mut i: usize = 0;
    while i < impressions.len()
        invariant
            i <= impressions.len(),
            sum == impressions_total(impressions@.take(i as int)),
        decreases impressions.len() - i,
    {
        proof {
            lemma_impressions_total_bound(impressions@.take(i as int));
            assert(impressions@.take(i + 1).drop_last() =~= impressions@.take(i as int));
        }
        sum = sum + impressions[i].price as i128;
        i += 1;
    }
    proof {
        assert(impressions@.take(impressions.len() as int) =~= impressions@);
    }
    if sum < i64::MIN as i128 || sum > i64::MAX as i128 {
        None
    } else {
        Some(sum as i64)
    }
}

/// The price of the garment line `line` with the services that the store
/// holds for it, where it can be stored.
pub fn price_clothes(db: &Database, line: &Clothes) -> (price: Option<i64>)
    ensures
        price == if fits(clothes_price(db@.clothing_services, *line)) {
            Some(clothes_price(db@.clothing_services, *line) as i64)
        } else {
            None
        },
{
    let services = select_children(db.clothing_services(), &line.id);
    let sum = sum_service_prices(&services);
    proof {
        lemma_services_total_bound(services@);
        assert(services@.len() == services.len());
        assert(-0x8000_0000_0000_0000 * services@.len() >= -0x8000_0000_0000_0000 * usize::MAX
            && 0x7fff_ffff_ffff_ffff * services@.len() <= 0x7fff_ffff_ffff_ffff * usize::MAX)
            by (nonlinear_arith)
            requires
                0 <= services@.len() <= usize::MAX,
        ;
    }
    price_line(line.unit_price, sum, line.total_quantity)
}

/// The sum of the prices of the garment lines `lines`, where each price and
/// the sum can be stored.
pub fn sum_clothes_prices(db: &Database, lines: &Vec<Clothes>) -> (sum: Option<i64>)
    ensures
        sum == if lines_fit(db@.clothing_services, lines@) && fits(
            clothes_total(db@.clothing_services, lines@),
        ) {
            Some(clothes_total(db@.clothing_services, lines@) as i64)
        } else {
            None
        },
{
    let mut sum: i128 = 0;
    let mut i: usize = 0;
    while i < lines.len()
        invariant
            i <= lines.len(),
            lines_fit(db@.clothing_services, lines@.take(i as int)),
            sum == clothes_total(db@.clothing_services, lines@.take(i as int)),
        decreases lines.len() - i,
    {
        proof {
            lemma_clothes_total_bound(db@.clothing_services, lines@.take(i as int));
            assert(lines@.take(i + 1).drop_last() =~= lines@.take(i as int));
        }
        match price_clothes(db, &lines[i]) {
            Some(price) => {
                sum = sum + price as i128;
            },
            None => {
                return None;
            },
        }
        proof {
            let next = lines@.take(i + 1);
            assert forall|k: int| 0 <= k < next.len() implies fits(
                clothes_price(db@.clothing_services, #[trigger] next[k]),
            ) by {
                if k < i {
                    assert(next[k] == lines@.take(i as int)[k]);
                }
            }
        }
        i += 1;
    }
    proof {
        assert(lines@.take(lines.len() as int) =~= lines@);
    }
    if sum < i64::MIN as i128 || sum > i64::MAX as i128 {
        None
    } else {
        Some(sum as i64)
    }
}

/// The total of an order from its subtotal, its tax rate in hundredths of a
/// percent and its
/// discount, where it can be stored.
pub fn total_of(subtotal: i64, iva: i64, discount: i64) -> (total: Option<i64>)
    ensures
        total == if fits(order_total(subtotal as int, iva as int, discount as int)) {
            Some(order_total(subtotal as int, iva as int, discount as int) as i64)
        } else {
            None
        },
{
    let s: i128 = subtotal as i128;
    let r: i128 = iva as i128;
    proof {
        assert(-0x4000_0000_0000_0000_0000_0000_0000_0000 <= s * r
            <= 0x4000_0000_0000_0000_0000_0000_0000_0000) by (nonlinear_arith)
            requires
                -0x8000_0000_0000_0000 <= s <= 0x8000_0000_0000_0000,
                -0x8000_0000_0000_0000 <= r <= 0x8000_0000_0000_0000,
        ;
    }
    let t: i128 = ten_thousandth(s * r);
    let total: i128 = s + t - discount as i128;
    if total < i64::MIN as i128 || total > i64::MAX as i128 {
        None
    } else {
        Some(total as i64)
    }
}

/// What remains of `debt` after a payment of `amount`, where it can be
/// stored; it always can after a payment that is not negative.
pub fn settle(debt: i64, amount: i64) -> (rest: Option<i64>)
    ensures
        rest == if fits(debt_after(debt as int, amount as int)) {
            Some(debt_after(debt as int, amount as int) as i64)
        } else {
            None
        },
        rest matches Some(r) ==> r >= 0,
        amount >= 0 ==> rest is Some,
{
    let rest: i128 = debt as i128 - amount as i128;
    if rest < 0 {
        Some(0)
    } else if rest > i64::MAX as i128 {
        None
    } else {
        Some(rest as i64)
    }
}

/// The subtotal of the order `order_id`, where every amount added up for
/// it can be stored.
pub fn subtotal_of(db: &Database, order_id: &String) -> (subtotal: Option<i64>)
    ensures
        subtotal == if subtotal_fits(db@, order_id@) {
            Some(order_subtotal(db@, order_id@) as i64)
        } else {
            None
        },
{
    let lines = select_children(db.clothes(), order_id);
    let impressions = select_children(db.impressions(), order_id);
    match sum_clothes_prices(db, &lines) {
        None => None,
        Some(clothes) => match sum_impression_prices(&impressions) {
            None => None,
            Some(printed) => {
                let subtotal: i128 = clothes as i128 + printed as i128;
                if subtotal < i64::MIN as i128 || subtotal > i64::MAX as i128 {
                    None
                } else {
                    Some(subtotal as i64)
                }
            },
        },
    }
}

} // verus!
