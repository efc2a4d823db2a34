//! Product configuration: values that a product may inherit from the general configuration,
//! and the resolution of a product configuration into a product.
use vstd::prelude::*;

use crate::collect_cfg::CollectArguments;
use crate::properties::Properties;
use crate::report::ReportConfig;
use crate::text;

verus! {

/// The value `$inherit`, which requests a value to be taken from the general configuration.
pub open spec fn inherit_marker() -> Seq<char> {
    seq!['$', 'i', 'n', 'h', 'e', 'r', 'i', 't']
}

/// Divider between product name and product base in generated product IDs.
pub const NAME_BASE_DIVIDER: char = '@';

/// A configured value, or the request to inherit it.
#[derive(Debug, Clone, PartialEq, Eq)]
pub enum Inheritable<T> {
    Inherited,
    Value(T),
}

/// An optional configured value that may be inherited.
pub type InheritableOption<T> = Option<Inheritable<T>>;

/// Product fields of the general configuration, inheritable by all products.
pub struct InheritableProductConfig {
    pub name: Option<String>,
    pub base: Option<String>,
    pub version: Option<String>,
    pub homepage: Option<String>,
    pub repository: Option<String>,
    pub license: Option<String>,
    pub description: Option<String>,
    pub properties: Option<Properties>,
}

/// Product data as configured for one product.
pub struct ProductDataConfig {
    pub id: Option<String>,
    pub name: Inheritable<String>,
    pub base: InheritableOption<String>,
    pub version: InheritableOption<String>,
    pub homepage: InheritableOption<String>,
    pub repository: InheritableOption<String>,
    pub license: InheritableOption<String>,
    pub description: InheritableOption<String>,
    pub properties: InheritableOption<Properties>,
}

/// A resolved product.
pub struct Product {
    pub id: String,
    pub name: String,
    pub base: Option<String>,
    pub version: Option<String>,
    pub homepage: Option<String>,
    pub repository: Option<String>,
    pub license: Option<String>,
    pub description: Option<String>,
    pub properties: Option<Properties>,
}

/// Fields of the general configuration that must hold plain values.
#[derive(Debug, Clone, Copy, PartialEq, Eq, Structural)]
pub enum GeneralField {
    Name,
    Base,
    Version,
    Homepage,
    Repository,
    License,
    Description,
}

/// Reasons a product configuration is rejected.
#[derive(Debug, Clone, Copy, PartialEq, Eq, Structural)]
pub enum ConfigError {
    /// A field of the general configuration is set to `$inherit`.
    GeneralValueInherited(GeneralField),
    /// The product ID is set to `$inherit`.
    IdInherited,
    /// Neither a product ID nor a product base is given.
    MissingBase,
    /// The product name is inherited, but the general configuration sets none.
    MissingInheritableName,
    /// The product name contains the name/base divider.
    NameContainsDivider,
    /// An optional field is inherited, but the general configuration sets none.
    MissingInheritableValue,
    /// The product base resolved to `$inherit`.
    BaseInherited,
    /// The product base contains the name/base divider.
    BaseContainsDivider,
}

/// The message of a configuration error.
pub open spec fn config_error_message(e: ConfigError) -> Seq<char> {
    match e {
        ConfigError::GeneralValueInherited(GeneralField::Name) => "The general name cannot inherit its value"@,
        ConfigError::GeneralValueInherited(GeneralField::Base) => "The general baseline cannot inherit its value"@,
        ConfigError::GeneralValueInherited(GeneralField::Version) => "The general version cannot inherit its value"@,
        ConfigError::GeneralValueInherited(GeneralField::Homepage) => "The general homepage cannot inherit its value"@,
        ConfigError::GeneralValueInherited(GeneralField::Repository) => "The general repository cannot inherit its value"@,
        ConfigError::GeneralValueInherited(GeneralField::License) => "The general license cannot inherit its value"@,
        ConfigError::GeneralValueInherited(GeneralField::Description) => "The general description cannot inherit its value"@,
        ConfigError::IdInherited => "The product ID cannot be inherited!"@,
        ConfigError::MissingBase => "Project baseline must be set if no ID is given."@,
        ConfigError::MissingInheritableName => "Missing inheritable product name"@,
        ConfigError::NameContainsDivider => "The product name must not contain '@'"@,
        ConfigError::MissingInheritableValue => "Missing inheritable value!"@,
        ConfigError::BaseInherited => "Product base cannot be inherited!"@,
        ConfigError::BaseContainsDivider => "Product base must not contain '@'"@,
    }
}

impl ConfigError {
    /// The message that reports the error.
    pub fn message(&self) -> (res: &'static str)
        ensures
            res@ == config_error_message(*self),
    {
        match self {
            ConfigError::GeneralValueInherited(GeneralField::Name) => "The general name cannot inherit its value",
            ConfigError::GeneralValueInherited(GeneralField::Base) => "The general baseline cannot inherit its value",
            ConfigError::GeneralValueInherited(GeneralField::Version) => "The general version cannot inherit its value",
            ConfigError::GeneralValueInherited(GeneralField::Homepage) => "The general homepage cannot inherit its value",
            ConfigError::GeneralValueInherited(GeneralField::Repository) => "The general repository cannot inherit its value",
            ConfigError::GeneralValueInherited(GeneralField::License) => "The general license cannot inherit its value",
            ConfigError::GeneralValueInherited(GeneralField::Description) => "The general description cannot inherit its value",
            ConfigError::IdInherited => "The product ID cannot be inherited!",
            ConfigError::MissingBase => "Project baseline must be set if no ID is given.",
            ConfigError::MissingInheritableName => "Missing inheritable product name",
            ConfigError::NameContainsDivider => "The product name must not contain '@'",
            ConfigError::MissingInheritableValue => "Missing inheritable value!",
            ConfigError::BaseInherited => "Product base cannot be inherited!",
            ConfigError::BaseContainsDivider => "Product base must not contain '@'",
        }
    }
}

/// Whether an optional string holds the inherit marker.
pub open spec fn is_marker(value: Option<String>) -> bool {
    value matches Some(v) && v@ == inherit_marker()
}

/// The first field of the general configuration, in declaration order, set to `$inherit`.
pub open spec fn first_inherited_general_field(cfg: InheritableProductConfig) -> Option<GeneralField> {
    if is_marker(cfg.name) {
        Some(GeneralField::Name)
    } else if is_marker(cfg.base) {
        Some(GeneralField::Base)
    } else if is_marker(cfg.version) {
        Some(GeneralField::Version)
    } else if is_marker(cfg.homepage) {
        Some(GeneralField::Homepage)
    } else if is_marker(cfg.repository) {
        Some(GeneralField::Repository)
    } else if is_marker(cfg.license) {
        Some(GeneralField::License)
    } else if is_marker(cfg.description) {
        Some(GeneralField::Description)
    } else {
        None
    }
}

/// Whether `value` may be used where inheriting is not allowed (it is not `$inherit`).
pub fn valid_non_inheritable(value: &str) -> (res: bool)
    ensures
        res == (value@ != inherit_marker()),
{
    let marker = ['$', 'i', 'n', 'h', 'e', 'r', 'i', 't'];
    assert(marker@ == inherit_marker());
    !text::str_is(value, &marker)
}

fn opt_is_marker(value: &Option<String>) -> (res: bool)
    ensures
        res == is_marker(*value),
{
    match value {
        Some(v) => !valid_non_inheritable(v.as_str()),
        None => false,
    }
}

impl InheritableProductConfig {
    /// Rejects a general configuration that sets one of its fields to `$inherit`,
    /// naming the first such field.
    pub fn check_validity(&self) -> (res: Result<(), ConfigError>)
        ensures
            res == match first_inherited_general_field(*self) {
                Some(f) => Err(ConfigError::GeneralValueInherited(f)),
                None => Ok(()),
            },
    {
        if opt_is_marker(&self.name) {
            Err(ConfigError::GeneralValueInherited(GeneralField::Name))
        } else if opt_is_marker(&self.base) {
            Err(ConfigError::GeneralValueInherited(GeneralField::Base))
        } else if opt_is_marker(&self.version) {
            Err(ConfigError::GeneralValueInherited(GeneralField::Version))
        } else if opt_is_marker(&self.homepage) {
            Err(ConfigError::GeneralValueInherited(GeneralField::Homepage))
        } else if opt_is_marker(&self.repository) {
            Err(ConfigError::GeneralValueInherited(GeneralField::Repository))
        } else if opt_is_marker(&self.license) {
            Err(ConfigError::GeneralValueInherited(GeneralField::License))
        } else if opt_is_marker(&self.description) {
            Err(ConfigError::GeneralValueInherited(GeneralField::Description))
        } else {
            Ok(())
        }
    }
}

/// The name a product resolves to, before the divider check.
pub open spec fn spec_name_value(name: Inheritable<String>, inheritable: Option<String>) -> Option<Seq<char>> {
    match name {
        Inheritable::Inherited => match inheritable {
            Some(v) => Some(v@),
            None => None,
        },
        Inheritable::Value(v) => Some(v@),
    }
}

/// Resolves the product name: an inherited name is taken from the general configuration.
/// The name must not contain the divider `@`.
pub fn resolve_product_name(name: Inheritable<String>, inheritable_value: &Option<String>) -> (res:
    Result<String, ConfigError>)
    ensures
        match spec_name_value(name, *inheritable_value) {
            None => res == Err::<String, ConfigError>(ConfigError::MissingInheritableName),
            Some(n) => if n.contains(NAME_BASE_DIVIDER) {
                res == Err::<String, ConfigError>(ConfigError::NameContainsDivider)
            } else {
                res matches Ok(r) && r@ == n
            },
        },
{
    let resolved_name = match name {
        Inheritable::Inherited => {
            match inheritable_value {
                Some(value) => value.clone(),
                None => {
                    return Err(ConfigError::MissingInheritableName);
                },
            }
        },
        Inheritable::Value(value) => value,
    };
    if text::contains_char(resolved_name.as_str(), NAME_BASE_DIVIDER) {
        return Err(ConfigError::NameContainsDivider);
    }
    Ok(resolved_name)
}

/// Resolves an optional inheritable value: absent stays absent, an explicit value is kept,
/// and an inherited one is cloned from the general configuration, which must provide it.
pub fn resolve_optional_inheritable<T: Clone>(
    value: InheritableOption<T>,
    inheritable: &Option<T>,
) -> (res: Result<Option<T>, ConfigError>)
    ensures
        match value {
            None => res == Ok::<Option<T>, ConfigError>(None),
            Some(Inheritable::Value(v)) => res == Ok::<Option<T>, ConfigError>(Some(v)),
            Some(Inheritable::Inherited) => match *inheritable {
                Some(x) => res matches Ok(Some(c)) && cloned(x, c),
                None => res == Err::<Option<T>, ConfigError>(ConfigError::MissingInheritableValue),
            },
        },
{
    match value {
        Some(value) => match value {
            Inheritable::Inherited => {
                if let Some(inherited_value) = inheritable {
                    Ok(Some(inherited_value.clone()))
                } else {
                    Err(ConfigError::MissingInheritableValue)
                }
            },
            Inheritable::Value(explicit_value) => Ok(Some(explicit_value)),
        },
        None => Ok(None),
    }
}

/// Checks a resolved product base: it must not be `$inherit` nor contain the divider `@`.
pub fn valid_product_base(base: &str) -> (res: Result<(), ConfigError>)
    ensures
        res == if base@ == inherit_marker() {
            Err::<(), ConfigError>(ConfigError::BaseInherited)
        } else if base@.contains(NAME_BASE_DIVIDER) {
            Err(ConfigError::BaseContainsDivider)
        } else {
            Ok(())
        },
{
    if !valid_non_inheritable(base) {
        Err(ConfigError::BaseInherited)
    } else if text::contains_char(base, NAME_BASE_DIVIDER) {
        Err(ConfigError::BaseContainsDivider)
    } else {
        Ok(())
    }
}

/// The ID a product gets: the explicit ID, or `<name>@<base>`.
pub fn resolve_product_id(id: Option<String>, name: &str, base: Option<&str>) -> (res: Result<
    String,
    ConfigError,
>)
    ensures
        match id {
            Some(i) => if i@ == inherit_marker() {
                res == Err::<String, ConfigError>(ConfigError::IdInherited)
            } else {
                res == Ok::<String, ConfigError>(i)
            },
            None => match base {
                Some(b) => res matches Ok(r) && r@ == name@.push(NAME_BASE_DIVIDER) + b@,
                None => res == Err::<String, ConfigError>(ConfigError::MissingBase),
            },
        },
{
    if let Some(id) = id {
        if valid_non_inheritable(id.as_str()) {
            Ok(id)
        } else {
            Err(ConfigError::IdInherited)
        }
    } else if let Some(base) = base {
        Ok(text::join_with(name, NAME_BASE_DIVIDER, base))
    } else {
        Err(ConfigError::MissingBase)
    }
}

/// The view of an optional inheritable value after resolution.
pub open spec fn spec_resolve_opt<T: View>(value: InheritableOption<T>, inheritable: Option<T>) -> Result<
    Option<T::V>,
    ConfigError,
> {
    match value {
        None => Ok(None),
        Some(Inheritable::Value(v)) => Ok(Some(v@)),
        Some(Inheritable::Inherited) => match inheritable {
            Some(x) => Ok(Some(x@)),
            None => Err(ConfigError::MissingInheritableValue),
        },
    }
}

/// The view of an optional value.
pub open spec fn opt_view<T: View>(value: Option<T>) -> Option<T::V> {
    match value {
        Some(v) => Some(v@),
        None => None,
    }
}

/// Whether an optional inheritable value resolves to the view of `got`.
pub open spec fn resolves_to<T: View>(value: InheritableOption<T>, inheritable: Option<T>, got: Option<T>) -> bool {
    spec_resolve_opt(value, inheritable) == Ok::<Option<T::V>, ConfigError>(opt_view(got))
}

/// The base of the product as resolved from the configuration, checked.
pub open spec fn spec_product_base(cfg: ProductDataConfig, inh: InheritableProductConfig) -> Result<
    Option<Seq<char>>,
    ConfigError,
> {
    match spec_resolve_opt(cfg.base, inh.base) {
        Err(e) => Err(e),
        Ok(None) => Ok(None),
        Ok(Some(b)) => if b == inherit_marker() {
            Err(ConfigError::BaseInherited)
        } else if b.contains(NAME_BASE_DIVIDER) {
            Err(ConfigError::BaseContainsDivider)
        } else {
            Ok(Some(b))
        },
    }
}

/// The first error that resolving a product configuration runs into, in the order
/// name, base, ID, version, homepage, repository, license, description, properties.
pub open spec fn spec_product_error(cfg: ProductDataConfig, inh: InheritableProductConfig) -> Option<
    ConfigError,
> {
    match spec_name_value(cfg.name, inh.name) {
        None => Some(ConfigError::MissingInheritableName),
        Some(n) => if n.contains(NAME_BASE_DIVIDER) {
            Some(ConfigError::NameContainsDivider)
        } else {
            match spec_product_base(cfg, inh) {
                Err(e) => Some(e),
                Ok(base) => {
                    if cfg.id matches Some(i) && i@ == inherit_marker() {
                        Some(ConfigError::IdInherited)
                    } else if cfg.id is None && base is None {
                        Some(ConfigError::MissingBase)
                    } else if spec_resolve_opt(cfg.version, inh.version) is Err
                        || spec_resolve_opt(cfg.homepage, inh.homepage) is Err
                        || spec_resolve_opt(cfg.repository, inh.repository) is Err
                        || spec_resolve_opt(cfg.license, inh.license) is Err
                        || spec_resolve_opt(cfg.description, inh.description) is Err
                        || spec_resolve_opt(cfg.properties, inh.properties) is Err {
                        Some(ConfigError::MissingInheritableValue)
                    } else {
                        None
                    }
                },
            }
        },
    }
}

/// The ID of the resolved product.
pub open spec fn spec_product_id(cfg: ProductDataConfig, name: Seq<char>, base: Option<Seq<char>>) -> Seq<
    char,
> {
    match cfg.id {
        Some(i) => i@,
        None => name.push(NAME_BASE_DIVIDER) + base->0,
    }
}

impl ProductDataConfig {
    /// Resolves the configured product data into a product, inheriting from the general
    /// configuration where `$inherit` is given.
    pub fn to_product(self, inheritable_cfg: &InheritableProductConfig) -> (res: Result<
        Product,
        ConfigError,
    >)
        ensures
            match spec_product_error(self, *inheritable_cfg) {
                Some(e) => res == Err::<Product, ConfigError>(e),
                None => res matches Ok(p) && {
                    let name = spec_name_value(self.name, inheritable_cfg.name)->0;
                    let base = spec_product_base(self, *inheritable_cfg)->Ok_0;
                    &&& p.name@ == name
                    &&& opt_view(p.base) == base
                    &&& p.id@ == spec_product_id(self, name, base)
                    &&& resolves_to(self.version, inheritable_cfg.version, p.version)
                    &&& resolves_to(self.homepage, inheritable_cfg.homepage, p.homepage)
                    &&& resolves_to(self.repository, inheritable_cfg.repository, p.repository)
                    &&& resolves_to(self.license, inheritable_cfg.license, p.license)
                    &&& resolves_to(self.description, inheritable_cfg.description, p.description)
                    &&& resolves_to(self.properties, inheritable_cfg.properties, p.properties)
                },
            },
    {
        let ghost cfg = self;
        let name = resolve_product_name(self.name, &inheritable_cfg.name)?;
        let base = resolve_optional_inheritable(self.base, &inheritable_cfg.base)?;
        if let Some(b) = &base {
            valid_product_base(b.as_str())?;
        }
        let base_str: Option<&str> = match &base {
            Some(b) => Some(b.as_str()),
            None => None,
        };
        let id = resolve_product_id(self.id, name.as_str(), base_str)?;
        let version = resolve_optional_inheritable(self.version, &inheritable_cfg.version)?;
        let homepage = resolve_optional_inheritable(self.homepage, &inheritable_cfg.homepage)?;
        let repository = resolve_optional_inheritable(self.repository, &inheritable_cfg.repository)?;
        let license = resolve_optional_inheritable(self.license, &inheritable_cfg.license)?;
        let description = resolve_optional_inheritable(self.description, &inheritable_cfg.description)?;
        let properties = resolve_optional_inheritable(self.properties, &inheritable_cfg.properties)?;
        Ok(Product { id, name, base, version, homepage, repository, license, description, properties })
    }
}

/// The commands of the command-line interface.
#[derive(Debug, Clone, PartialEq, Eq)]
pub enum Cmd {
    Report(ReportConfig),
    Collect(CollectArguments),
    /// Delete test runs and reviews that have no linked requirement or coverage remaining.
    Prune,
    /// Delete all collected data in the database.
    Clear,
}

/// Configuration given on the command line.
#[derive(Debug, Clone, PartialEq, Eq)]
pub struct CliConfig {
    /// Path to the configuration file (`mantra.json5` unless given).
    pub config_filepath: String,
    pub cmd: Cmd,
}

/// The product to collect where the command may name one product: without such a name,
/// every product as configured; with it, only the product of that ID, with the base and
/// version that the command gives replacing the configured ones.
pub fn select_product(
    product: Product,
    specific_id: &Option<String>,
    base: &Option<String>,
    version: &Option<String>,
) -> (res: Option<Product>)
    ensures
        match specific_id {
            None => res == Some(product),
            Some(id) => if id@ == product.id@ {
                res matches Some(p) && p == (Product {
                    base: match base {
                        Some(b) => Some(*b),
                        None => product.base,
                    },
                    version: match version {
                        Some(v) => Some(*v),
                        None => product.version,
                    },
                    ..product
                })
            } else {
                res is None
            },
        },
{
    match specific_id {
        None => Some(product),
        Some(id) => {
            if crate::text::chars_are(crate::text::to_chars(id.as_str()).as_slice(), product.id.as_str()) {
                let mut p = product;
                if let Some(b) = base {
                    p.base = Some(b.clone());
                }
                if let Some(v) = version {
                    p.version = Some(v.clone());
                }
                Some(p)
            } else {
                None
            }
        },
    }
}

/// The positions of configured products whose ID an earlier entry already has.
pub fn duplicate_products(ids: &Vec<String>) -> (res: Vec<usize>)
    ensures
        forall|k: int|
            0 <= k < res@.len() ==> (#[trigger] res@[k]) < ids@.len() && exists|j: int|
                0 <= j < res@[k] && (#[trigger] ids@[j])@ == ids@[res@[k] as int]@,
        forall|i: int, j: int|
            0 <= j < i < ids@.len() && (#[trigger] ids@[j])@ == (#[trigger] ids@[i])@ ==> res@.contains(i as usize),
        forall|a: int, b: int| 0 <= a < b < res@.len() ==> res@[a] < res@[b],
{
    let mut res: Vec<usize> = Vec::new();
    for i in 0..ids.len()
        invariant
            forall|k: int|
                0 <= k < res@.len() ==> (#[trigger] res@[k]) < i && exists|j: int|
                    0 <= j < res@[k] && (#[trigger] ids@[j])@ == ids@[res@[k] as int]@,
            forall|x: int, j: int|
                0 <= j < x < i && (#[trigger] ids@[j])@ == (#[trigger] ids@[x])@ ==> res@.contains(x as usize),
            forall|a: int, b: int| 0 <= a < b < res@.len() ==> res@[a] < res@[b],
    {
        let cur = crate::text::to_chars(ids[i].as_str());
        let mut seen = false;
        let mut j: usize = 0;
        while j < i
            invariant
                i < ids@.len(),
                cur@ == ids@[i as int]@,
                j <= i,
                seen == exists|m: int| 0 <= m < j && (#[trigger] ids@[m])@ == ids@[i as int]@,
            decreases i - j,
        {
            if crate::text::chars_are(cur.as_slice(), ids[j].as_str()) {
                seen = true;
            }
            j = j + 1;
        }
        let ghost prev = res@;
        if seen {
            res.push(i);
        }
        proof {
            assert forall|x: int, jj: int|
                0 <= jj < x < i + 1 && (#[trigger] ids@[jj])@ == (#[trigger] ids@[x])@ implies res@.contains(
                x as usize,
            ) by {
                if x < i {
                    assert(prev.contains(x as usize));
                    let k = choose|k: int| 0 <= k < prev.len() && prev[k] == x as usize;
                    assert(res@[k] == x as usize);
                } else {
                    assert(seen);
                    assert(res@[res@.len() - 1] == i);
                }
            }
        }
    }
    res
}

} // verus!
