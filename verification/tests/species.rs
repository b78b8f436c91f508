use velvet::elements::Element;
use velvet::species::Specie;

#[test]
fn from_element() {
    let element = Element::H;
    let specie = Specie::from_element(element);
    assert_eq!(specie.mass(), element.mass());
    assert_eq!(specie.charge(), element.charge());
    assert_eq!(specie.id(), element.number() as u128);
}

#[test]
fn compare_equivalent() {
    let hydrogen1 = Specie::from_element(Element::H);
    let hydrogen2 = Specie::from_element(Element::H);
    assert_eq!(hydrogen1, hydrogen2);
}

#[test]
fn compare_nonequivalent() {
    let hydrogen = Specie::from_element(Element::H);
    let helium = Specie::from_element(Element::He);
    assert_ne!(hydrogen, helium);
    let specie = Specie::new(hydrogen.mass(), hydrogen.charge());
    assert_ne!(specie, hydrogen);
}

#[test]
fn fresh_identities_differ() {
    let a = Specie::new(1_000_000_000, 0);
    let b = Specie::new(1_000_000_000, 0);
    assert_ne!(a.id(), 0);
    assert_ne!(b.id(), 0);
    assert_ne!(a.id(), b.id());
}
