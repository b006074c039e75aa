# vfio_pci

The device model of a host PCI device that is passed through to a guest by VFIO, verified with
Verus. It covers the MSI and MSI-X capabilities, the BARs and their mapping into the guest, config
space accesses and the switching of interrupts, and with them the mapper behind a virtual IOMMU and
the fence state of the renderers of a virtual GPU.

- `src/` decides and computes. What has to be asked of the host or of the VM is returned as a step to
  take, and the reply is handed back. Functions whose names begin with `law_` state what holds of the
  model as a whole.
- `app/` takes those steps, through traits that stand for the host, the VM and the allocators.
- `tests/` runs the library on concrete values.
